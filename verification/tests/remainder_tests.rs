use spectrum_bars::remainder::Remainder;

#[test]
fn test_as_8ths() {
    assert_eq!(0, Remainder::E0.as_8ths());
    assert_eq!(1, Remainder::E1.as_8ths());
    assert_eq!(2, Remainder::E2.as_8ths());
    assert_eq!(3, Remainder::E3.as_8ths());
    assert_eq!(4, Remainder::E4.as_8ths());
    assert_eq!(5, Remainder::E5.as_8ths());
    assert_eq!(6, Remainder::E6.as_8ths());
    assert_eq!(7, Remainder::E7.as_8ths());
}

#[test]
fn test_from_8ths() {
    let cycles: usize = 6;
    let order: [Remainder; 8] = [
        Remainder::E0,
        Remainder::E1,
        Remainder::E2,
        Remainder::E3,
        Remainder::E4,
        Remainder::E5,
        Remainder::E6,
        Remainder::E7,
    ];

    for i in 0..=(cycles * 8) {
        let expected = order[i % 8];
        let produced = Remainder::from_8ths(i);

        assert_eq!(expected, produced);
    }
}

#[test]
fn from_8ths_round_trip() {
    for n in 0..100usize {
        assert_eq!(Remainder::from_8ths(n).as_8ths(), n % 8);
    }
}
