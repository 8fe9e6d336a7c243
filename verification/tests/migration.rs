use account_store::error::StoreError;
use account_store::migration;
use account_store::migration::recorded_after;

#[derive(Debug, PartialEq)]
enum Kind {
    ConnectionError,
    QueryError,
    InputSerializationError,
    DataDeserializationError,
}

fn kind<T>(result: Result<T, StoreError>) -> Result<T, Kind> {
    result.map_err(|error| match error {
        StoreError::ConnectionError => Kind::ConnectionError,
        StoreError::QueryError => Kind::QueryError,
        StoreError::InputSerializationError(_) => Kind::InputSerializationError,
        StoreError::DataDeserializationError(_) => Kind::DataDeserializationError,
    })
}

fn pending_steps(applied: i64, known: u32) -> Result<Vec<u32>, Kind> {
    kind(migration::pending_steps(applied, known))
}

#[test]
fn fresh_database_runs_every_step_in_order() {
    assert_eq!(pending_steps(0, 1), Ok(vec![0]));
    assert_eq!(pending_steps(0, 3), Ok(vec![0, 1, 2]));
}

#[test]
fn older_database_runs_the_steps_it_lacks() {
    assert_eq!(pending_steps(1, 3), Ok(vec![1, 2]));
    assert_eq!(pending_steps(2, 3), Ok(vec![2]));
}

#[test]
fn current_database_runs_no_step() {
    assert_eq!(pending_steps(1, 1), Ok(vec![]));
    assert_eq!(pending_steps(0, 0), Ok(vec![]));
}

#[test]
fn second_run_finds_nothing_to_do() {
    let known: u32 = 4;
    let mut recorded: i64 = 1;
    for step in pending_steps(recorded, known).unwrap() {
        assert_eq!(i64::from(step), recorded);
        recorded = recorded_after(step);
    }
    assert_eq!(recorded, 4);
    assert_eq!(pending_steps(recorded, known), Ok(vec![]));
}

#[test]
fn newer_database_is_refused() {
    assert_eq!(pending_steps(2, 1), Err(Kind::ConnectionError));
    assert_eq!(pending_steps(i64::MAX, u32::MAX), Err(Kind::ConnectionError));
}

#[test]
fn negative_record_is_refused() {
    assert_eq!(pending_steps(-1, 1), Err(Kind::ConnectionError));
}

#[test]
fn record_after_a_step() {
    assert_eq!(recorded_after(0), 1);
    assert_eq!(recorded_after(u32::MAX), 4_294_967_296);
}
