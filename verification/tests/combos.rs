use poker_core::card_iter::ComboIter;

#[test]
fn test_enumerator_yields_c_7_5() {
    // a 7-card hand has exactly C(7,5) = 21 five-card subsets, each
    // produced once: none repeats, none is skipped
    let mut it = ComboIter::new(7);
    let mut subsets: Vec<Vec<usize>> = Vec::new();
    loop {
        subsets.push(it.idx.clone());
        if !it.advance() {
            break;
        }
    }
    assert_eq!(21, subsets.len());
    for i in 0..subsets.len() {
        let s = &subsets[i];
        assert_eq!(5, s.len());
        for k in 1..5 {
            assert!(s[k - 1] < s[k]);
        }
        assert!(s[4] < 7);
        for j in 0..i {
            assert_ne!(subsets[j], *s);
        }
    }
}

#[test]
fn test_enumerator_five_of_five() {
    // with exactly five cards there is a single, trivial subset
    let mut it = ComboIter::new(5);
    assert_eq!(vec![0, 1, 2, 3, 4], it.idx);
    assert!(!it.advance());
}

#[test]
fn test_enumerator_six_of_five() {
    let mut it = ComboIter::new(6);
    let mut count = 0;
    loop {
        count += 1;
        if !it.advance() {
            break;
        }
    }
    assert_eq!(6, count);
}
