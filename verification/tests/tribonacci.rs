use rsheet::tribonacci::compute_tribonacci;

#[test]
fn tribonacci_first_ten_values() {
    let v = compute_tribonacci(Ok(10)).unwrap();
    assert_eq!(v, vec![1, 1, 1, 3, 5, 9, 17, 31, 57, 105]);
}

#[test]
fn tribonacci_never_fewer_than_three_values() {
    assert_eq!(compute_tribonacci(Ok(0)).unwrap(), vec![1, 1, 1]);
    assert_eq!(compute_tribonacci(Ok(3)).unwrap(), vec![1, 1, 1]);
    assert_eq!(compute_tribonacci(Ok(4)).unwrap(), vec![1, 1, 1, 3]);
}

#[test]
fn tribonacci_reports_the_size_error() {
    let parsed = "not a number".parse::<usize>();
    let e = compute_tribonacci(parsed).unwrap_err();
    assert_eq!(e.get_message(), "Please enter a valid size");
}
