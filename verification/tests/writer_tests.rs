use tmpl8::writer::propagate_execute_bits;

#[test]
fn execute_follows_read_write() {
    assert_eq!(propagate_execute_bits(0o644), 0o755);
    assert_eq!(propagate_execute_bits(0o600), 0o700);
    assert_eq!(propagate_execute_bits(0o640), 0o750);
    assert_eq!(propagate_execute_bits(0o444), 0o555);
}

#[test]
fn stripped_classes_stay_stripped() {
    assert_eq!(propagate_execute_bits(0o000), 0o000);
    assert_eq!(propagate_execute_bits(0o060), 0o070);
}

#[test]
fn existing_execute_bits_are_kept() {
    assert_eq!(propagate_execute_bits(0o755), 0o755);
    assert_eq!(propagate_execute_bits(0o100), 0o100);
}
