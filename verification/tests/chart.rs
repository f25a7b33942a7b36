use saimod::chart::{Chart, ChartKind};

#[test]
fn histogram_and_bar_have_no_positions() {
    let histogram = Chart::histogram("h", "file", vec![Some(1), None]);
    assert_eq!(histogram.kind, ChartKind::Histogram);
    assert_eq!(histogram.title, "h");
    assert_eq!(histogram.file_name, "file");
    assert_eq!(histogram.x_data, Vec::<u32>::new());
    assert_eq!(histogram.y_data, vec![Some(1), None]);
    let bar = Chart::bar("b", "other", vec![Some(3)]);
    assert_eq!(bar.kind, ChartKind::Bar);
    assert_eq!(bar.x_data, Vec::<u32>::new());
    assert_eq!(bar.y_data, vec![Some(3)]);
}

#[test]
fn line_from_data_keeps_the_points() {
    let line = Chart::from_data("l", "file", vec![30, 40, 50], vec![Some(1), None, Some(2)]);
    assert_eq!(line.kind, ChartKind::Line);
    assert_eq!(line.x_data, vec![30, 40, 50]);
    assert_eq!(line.y_data, vec![Some(1), None, Some(2)]);
}

#[test]
fn line_over_positions_counts_from_zero() {
    let line = Chart::over_positions("l", "file", vec![Some(9), Some(8), Some(7), None]);
    assert_eq!(line.kind, ChartKind::Line);
    assert_eq!(line.x_data, vec![0, 1, 2, 3]);
    assert_eq!(line.y_data, vec![Some(9), Some(8), Some(7), None]);
    assert_eq!(Chart::over_positions("l", "file", Vec::new()).x_data, Vec::<u32>::new());
}
