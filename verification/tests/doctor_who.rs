use rsheet::caesar::caesar_shift;

#[test]
fn test_caesar_shift() {
    assert_eq!(caesar_shift(Some(3), vec!["abc".to_string()]), vec!["def".to_string()]);
    assert_eq!(caesar_shift(Some(1), vec!["xyz".to_string()]), vec!["yza".to_string()]);
    assert_eq!(
        caesar_shift(None, vec!["Hello, World!".to_string()]),
        vec!["Mjqqt, Btwqi!".to_string()]
    );
}

#[test]
fn caesar_negative_shift_wraps_backwards() {
    assert_eq!(caesar_shift(Some(-1), vec!["abc".to_string()]), vec!["zab".to_string()]);
    assert_eq!(caesar_shift(Some(-27), vec!["Abc".to_string()]), vec!["Zab".to_string()]);
}

#[test]
fn caesar_large_shift_reduces_modulo_alphabet() {
    assert_eq!(caesar_shift(Some(26), vec!["abc".to_string()]), vec!["abc".to_string()]);
    assert_eq!(caesar_shift(Some(29), vec!["abc".to_string()]), vec!["def".to_string()]);
}
