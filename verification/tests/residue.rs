use piano::filter::Filter;
use piano::residue::Residue;
use piano::sample::whole;

#[test]
fn residues_wrap_around() {
    assert_eq!(Residue(3) + Residue(4), Residue(7));
    assert_eq!(Residue(u64::MAX) + Residue(2), Residue(1));
    assert_eq!(Residue(3) - Residue(4), Residue(u64::MAX));
    assert_eq!(Residue(1 << 63) * Residue(2), Residue(0));
    assert_eq!(Residue(6) * Residue(7), Residue(42));
    assert_eq!(-Residue(1), Residue(u64::MAX));
    assert_eq!(-Residue(0), Residue(0));
}

#[test]
fn residues_divide_by_zero_to_zero() {
    assert_eq!(Residue(42) / Residue(5), Residue(8));
    assert_eq!(Residue(42) / Residue(0), Residue(0));
    assert_eq!(Residue(0) / Residue(7), Residue(0));
}

#[test]
fn residues_are_ordered_as_whole_numbers() {
    assert!(Residue(1) < Residue(2));
    assert!(Residue(2) > Residue(1));
    assert!(Residue(2) <= Residue(2));
    assert!(!(Residue(u64::MAX) < Residue(0)));
    assert_eq!(Residue::from(7u8), Residue(7));
    assert_eq!(whole::<Residue>(123456789), Residue(123456789));
}

#[test]
fn a_filter_runs_on_residues() {
    let a = vec![Residue(1), Residue(2)];
    let b = vec![Residue(3), Residue(5)];
    let mut f = Filter::new(1, a, b, String::from("residues"));
    assert_eq!(f.filter(Residue(1)), Residue(3));
    assert_eq!(f.filter(Residue(10)), Residue(30 + 5 - 2 * 3));
    assert_eq!(f.filter(Residue(0)), Residue(50) - Residue(2 * 29));
}
