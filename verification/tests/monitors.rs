use teamview::client::capture::monitors::{
    monitor_index_list, select_monitor, MonitorBounds, MonitorSelectError,
};
use teamview::client::capture::CaptureError;

fn monitor(index: usize, left: i32, right: i32, is_primary: bool) -> MonitorBounds {
    MonitorBounds {
        index,
        left,
        top: 0,
        right,
        bottom: 1080,
        is_primary,
    }
}

fn desk() -> Vec<MonitorBounds> {
    vec![monitor(0, -1920, 0, false), monitor(1, 0, 1920, true)]
}

#[test]
fn primary_is_chosen_in_any_case_and_with_spaces() {
    assert_eq!(select_monitor(&desk(), " PRIMARY\t"), Ok(desk()[1]));
    assert_eq!(select_monitor(&desk(), "Primary"), Ok(desk()[1]));
}

#[test]
fn monitors_are_chosen_by_index() {
    assert_eq!(select_monitor(&desk(), "0"), Ok(desk()[0]));
    assert_eq!(select_monitor(&desk(), "+1"), Ok(desk()[1]));
    assert_eq!(
        select_monitor(&desk(), "7"),
        Err(MonitorSelectError::NotFound { index: 7 })
    );
}

#[test]
fn bad_monitor_ids_are_refused() {
    assert_eq!(select_monitor(&desk(), "one"), Err(MonitorSelectError::InvalidId));
    assert_eq!(select_monitor(&desk(), ""), Err(MonitorSelectError::InvalidId));
    assert_eq!(select_monitor(&desk(), "-1"), Err(MonitorSelectError::InvalidId));
    assert_eq!(
        select_monitor(&desk(), "99999999999999999999999"),
        Err(MonitorSelectError::InvalidId)
    );
    assert_eq!(
        select_monitor(&[monitor(0, 0, 10, false)], "primary"),
        Err(MonitorSelectError::NoPrimary)
    );
}

#[test]
fn monitor_size_comes_from_its_bounds() {
    assert_eq!(desk()[0].size(), Ok((1920, 1080)));
    assert_eq!(
        monitor(0, 10, 10, false).size(),
        Err(CaptureError::InvalidSize {
            width: 0,
            height: 1080
        })
    );
}

#[test]
fn monitor_indexes_are_listed_with_the_primary_marked() {
    assert_eq!(monitor_index_list(&desk()), "0, 1 (primary)");
    assert_eq!(monitor_index_list(&[]), "none");
}
