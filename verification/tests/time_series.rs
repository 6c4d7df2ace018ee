use ziofa::time_series::TimeSeries;

#[test]
fn some_test() {
    let mut ts = TimeSeries::new(5);

    ts.append(10);
    ts.append(20);
    ts.append(30);
    ts.append(40);
    ts.append(50);

    println!("{:?}", ts.as_array());
    assert_eq!(ts.as_array(), vec![10, 20, 30, 40, 50]);

    ts.append(60);
    println!("{:?}", ts.as_array());
    assert_eq!(ts.as_array(), vec![20, 30, 40, 50, 60]);
}

#[test]
fn new_series_is_zeroed() {
    let ts = TimeSeries::new(3);
    assert_eq!(ts.length(), 3);
    assert_eq!(ts.as_array(), vec![0, 0, 0]);
}

#[test]
fn append_keeps_length() {
    let mut ts = TimeSeries::new(4);
    for v in 1..=9u64 {
        ts.append(v);
        assert_eq!(ts.length(), 4);
    }
    assert_eq!(ts.as_array(), vec![6, 7, 8, 9]);
}
