use tasks_api::model::{NewTask, Task};
use tasks_api::pool::Pool;
use tasks_api::request::{
    acquire, delete_outcome, finish, index, lease_error, not_found_body, response_status,
    status_code, update_outcome, ApiError,
};
use tasks_api::pool::PoolError;

#[test]
fn status_codes_of_each_error() {
    assert_eq!(status_code(ApiError::PoolUnavailable), 500);
    assert_eq!(status_code(ApiError::PoolExhausted), 503);
    assert_eq!(status_code(ApiError::Storage), 500);
    assert_eq!(status_code(ApiError::NotFound), 404);
    assert_eq!(status_code(ApiError::BadRequest), 400);
}

#[test]
fn lease_errors_map_to_request_errors() {
    assert_eq!(lease_error(PoolError::Unavailable), ApiError::PoolUnavailable);
    assert_eq!(lease_error(PoolError::Exhausted), ApiError::PoolExhausted);
}

#[test]
fn response_status_of_success_and_failure() {
    assert_eq!(response_status(&Ok::<(), ApiError>(())), 200);
    assert_eq!(response_status(&Err::<(), ApiError>(ApiError::PoolExhausted)), 503);
    assert_eq!(response_status(&Err::<(), ApiError>(ApiError::BadRequest)), 400);
}

#[test]
fn acquire_without_pool_is_unavailable() {
    let mut pool: Option<Pool<u8>> = None;
    let r = acquire(&mut pool);
    assert!(matches!(r, Err(ApiError::PoolUnavailable)));
    assert_eq!(response_status(&r.map(|_| ())), 500);
    assert!(pool.is_none());
}

#[test]
fn acquire_from_exhausted_pool_is_503() {
    let mut pool = Some(Pool::new(vec![1u8]).ok().unwrap());
    let held = acquire(&mut pool).ok().unwrap();
    let r = acquire(&mut pool);
    assert!(matches!(r, Err(ApiError::PoolExhausted)));
    assert_eq!(response_status(&r.map(|_| ())), 503);
    let p = pool.as_mut().unwrap();
    let out = finish(p, held, Ok::<i32, ApiError>(1));
    assert_eq!(out, Ok(1));
}

#[test]
fn request_releases_on_success_and_failure() {
    let mut pool = Some(Pool::new(vec![1u8, 2]).ok().unwrap());
    let before = pool.as_ref().unwrap().idle_count();
    let c = acquire(&mut pool).ok().unwrap();
    assert_eq!(pool.as_ref().unwrap().idle_count(), before - 1);
    let out = finish(pool.as_mut().unwrap(), c, Err::<(), ApiError>(ApiError::Storage));
    assert_eq!(out, Err(ApiError::Storage));
    assert_eq!(pool.as_ref().unwrap().idle_count(), before);
    let c = acquire(&mut pool).ok().unwrap();
    let out = finish(pool.as_mut().unwrap(), c, Ok::<u32, ApiError>(5));
    assert_eq!(out, Ok(5));
    assert_eq!(pool.as_ref().unwrap().idle_count(), before);
}

#[test]
fn update_reports_targeted_id() {
    assert_eq!(update_outcome(42, Ok(1)), Ok(42));
    assert_eq!(update_outcome(42, Ok(0)), Ok(42));
    assert_eq!(update_outcome(42, Err(ApiError::Storage)), Err(ApiError::Storage));
}

#[test]
fn delete_of_absent_id_is_ok() {
    let r = delete_outcome(Ok(0));
    assert_eq!(r, Ok(()));
    assert_eq!(response_status(&r), 200);
    assert_eq!(delete_outcome(Err(ApiError::Storage)), Err(ApiError::Storage));
}

#[test]
fn greeting_and_not_found_body() {
    assert_eq!(index(), "Hello, world!");
    assert_eq!(
        not_found_body(),
        "{\"status\":\"error\",\"reason\":\"Resource was not found.\"}"
    );
}

#[test]
fn task_fields() {
    let t = Task::new(3, "buy milk".to_string(), false);
    assert_eq!(t.id(), 3);
    assert_eq!(t.task(), "buy milk");
    assert!(!t.completed());
    let n = NewTask::new("walk".to_string(), true);
    assert_eq!(n.task(), "walk");
    assert!(n.completed());
}

#[test]
fn update_record_takes_path_id() {
    let t = Task::for_update(999, NewTask::new("x".to_string(), true)).unwrap();
    assert_eq!(t.id(), 999);
    assert_eq!(t.task(), "x");
    assert!(t.completed());
    assert!(Task::for_update(2_147_483_647, NewTask::new("y".to_string(), false)).is_some());
    assert!(Task::for_update(2_147_483_648, NewTask::new("y".to_string(), false)).is_none());
}
