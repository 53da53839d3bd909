use example_restapi::controllers::blocklist::{
    add, add_address, plan_add, plan_remove, remove, remove_address,
};
use example_restapi::error::{respond, ApiError, HttpResponse};
use example_restapi::models::ip::ApiBody;
use example_restapi::table::{
    BackendReply, BlocklistTable, MemoryBackend, Record, TableBackend, TableCommand, TableError,
};
use std::cell::Cell;
use std::rc::Rc;

/// A storage that is full, fails every removal and every lookup, and
/// counts how often it is called.
struct StuckBackend {
    calls: Rc<Cell<u32>>,
}

impl StuckBackend {
    fn new() -> (StuckBackend, Rc<Cell<u32>>) {
        let calls = Rc::new(Cell::new(0));
        (StuckBackend { calls: calls.clone() }, calls)
    }
}

impl TableBackend for StuckBackend {
    fn insert_entry(&mut self, _key: u32, _value: Record) -> BackendReply {
        self.calls.set(self.calls.get() + 1);
        BackendReply::Full
    }

    fn remove_entry(&mut self, _key: u32) -> BackendReply {
        self.calls.set(self.calls.get() + 1);
        BackendReply::Fault
    }

    fn has_entry(&self, _key: u32) -> Option<bool> {
        self.calls.set(self.calls.get() + 1);
        None
    }
}
use example_restapi::{AppState, BlocklistMapState};

fn shared(limit: usize) -> BlocklistMapState<MemoryBackend> {
    BlocklistMapState::new(BlocklistTable::new(MemoryBackend::new(limit)))
}

fn body(ip: &str) -> ApiBody {
    ApiBody { ip: ip.to_string() }
}

const ERROR_BODY: &str = "{\"error\":\"An internal server error occured.\"}";

#[test]
fn add_then_read_then_remove_then_read() {
    let state = shared(16);
    assert_eq!(add(state.clone(), body("203.0.113.5")), Ok(()));
    assert_eq!(state.contains(3405803781), Ok(true));
    assert_eq!(state.contains(3405803525), Ok(false));
    assert_eq!(remove(state.clone(), "203.0.113.5"), Ok(()));
    assert_eq!(state.contains(3405803781), Ok(false));
}

#[test]
fn block_then_unblock_twice_answers_200_each_time() {
    let state = shared(16);
    let posted = respond(add(state.clone(), body("198.51.100.7")));
    assert_eq!(posted.status, 200);
    assert_eq!(posted.body, "");
    assert_eq!(state.contains(0xC633_6407), Ok(true));
    let deleted = respond(remove(state.clone(), "198.51.100.7"));
    assert_eq!(deleted.status, 200);
    assert_eq!(deleted.body, "");
    assert_eq!(state.contains(0xC633_6407), Ok(false));
    let again = respond(remove(state.clone(), "198.51.100.7"));
    assert_eq!(again.status, 200);
    assert_eq!(again.body, "");
    assert_eq!(state.contains(0xC633_6407), Ok(false));
}

#[test]
fn adding_twice_leaves_one_entry() {
    let mut t = BlocklistTable::new(MemoryBackend::new(4));
    assert_eq!(add_address(&mut t, "10.0.0.1"), Ok(()));
    assert_eq!(add_address(&mut t, "10.0.0.1"), Ok(()));
    assert_eq!(t.contains(167772161), Ok(true));
    assert_eq!(t.into_backend().len(), 1);
}

#[test]
fn a_malformed_address_is_refused_before_the_table_is_touched() {
    let mut t = BlocklistTable::new(MemoryBackend::new(4));
    assert_eq!(add_address(&mut t, "10.0.0.1"), Ok(()));
    assert_eq!(add_address(&mut t, "not-an-ip"), Err(ApiError::BadRequest));
    assert_eq!(remove_address(&mut t, "not-an-ip"), Err(ApiError::BadRequest));
    assert_eq!(t.contains(167772161), Ok(true));
    assert_eq!(t.into_backend().len(), 1);

    let state = shared(4);
    assert_eq!(add(state.clone(), body("not-an-ip")), Err(ApiError::BadRequest));
    assert_eq!(remove(state.clone(), "not-an-ip"), Err(ApiError::BadRequest));
    assert_eq!(remove(state.clone(), ""), Err(ApiError::BadRequest));
}

#[test]
fn a_malformed_address_never_reaches_the_storage() {
    let (backend, calls) = StuckBackend::new();
    let mut t = BlocklistTable::new(backend);
    assert_eq!(add_address(&mut t, "1.2.3"), Err(ApiError::BadRequest));
    assert_eq!(remove_address(&mut t, "1.2.3"), Err(ApiError::BadRequest));
    assert_eq!(calls.get(), 0);
    assert_eq!(add_address(&mut t, "1.2.3.4"), Err(ApiError::InternalServerError));
    assert_eq!(calls.get(), 1);
    assert_eq!(remove_address(&mut t, "1.2.3.4"), Err(ApiError::InternalServerError));
    assert_eq!(calls.get(), 2);

    let state = BlocklistMapState::new(t);
    assert_eq!(add(state.clone(), body("not-an-ip")), Err(ApiError::BadRequest));
    assert_eq!(remove(state.clone(), "not-an-ip"), Err(ApiError::BadRequest));
    assert_eq!(calls.get(), 2);
}

#[test]
fn a_failing_storage_answers_with_the_internal_error() {
    let (backend, calls) = StuckBackend::new();
    let state = BlocklistMapState::new(BlocklistTable::new(backend));
    assert_eq!(add(state.clone(), body("10.0.0.1")), Err(ApiError::InternalServerError));
    assert_eq!(remove(state.clone(), "10.0.0.1"), Err(ApiError::InternalServerError));
    assert_eq!(state.contains(1), Err(TableError::Backend));
    assert_eq!(
        state.with_write(TableCommand::Insert { key: 1, value: Record::zeroed() }),
        Err(TableError::Capacity)
    );
    assert_eq!(state.with_write(TableCommand::Remove { key: 1 }), Err(TableError::Backend));
    assert_eq!(calls.get(), 5);
    let response = respond(remove(state.clone(), "10.0.0.1"));
    assert_eq!(response.status, 500);
    assert_eq!(response.body, ERROR_BODY);
}

#[test]
fn removing_an_address_that_is_not_blocked_succeeds() {
    let mut t = BlocklistTable::new(MemoryBackend::new(4));
    assert_eq!(add_address(&mut t, "10.0.0.1"), Ok(()));
    assert_eq!(remove_address(&mut t, "10.0.0.2"), Ok(()));
    assert_eq!(t.contains(167772161), Ok(true));
    assert_eq!(t.into_backend().len(), 1);
}

#[test]
fn a_full_table_answers_with_the_internal_error() {
    let state = shared(1);
    assert_eq!(add(state.clone(), body("10.0.0.1")), Ok(()));
    assert_eq!(add(state.clone(), body("10.0.0.2")), Err(ApiError::InternalServerError));
    assert_eq!(add(state.clone(), body("10.0.0.1")), Ok(()));
    assert_eq!(state.contains(167772162), Ok(false));
    let response = respond(add(state.clone(), body("10.0.0.2")));
    assert_eq!(response.status, 500);
    assert_eq!(response.body, ERROR_BODY);
}

#[test]
fn plans_carry_the_key_and_a_zeroed_record() {
    assert_eq!(
        plan_add("0.0.1.2"),
        Ok(TableCommand::Insert { key: 258, value: Record { slot0: 0, slot1: 0 } })
    );
    assert_eq!(plan_remove("0.0.1.2"), Ok(TableCommand::Remove { key: 258 }));
    assert_eq!(plan_add("0.0.1"), Err(ApiError::BadRequest));
    assert_eq!(plan_remove("0.0.1.2.3"), Err(ApiError::BadRequest));
}

#[test]
fn the_internal_error_is_a_500_with_a_json_body() {
    let response: HttpResponse = ApiError::InternalServerError.into_response();
    assert_eq!(response.status, 500);
    assert_eq!(response.body, ERROR_BODY);
    let parsed: serde_json::Value = serde_json::from_str(&response.body).unwrap();
    let object = parsed.as_object().unwrap();
    assert_eq!(object.len(), 1);
    assert_eq!(object.get("error").unwrap().as_str(), Some("An internal server error occured."));
}

#[test]
fn the_validation_error_is_a_400_with_a_json_body() {
    let response = ApiError::BadRequest.into_response();
    assert_eq!(response.status, 400);
    assert_eq!(response.body, "{\"error\":\"The address is not a valid IPv4 address.\"}");
    assert_eq!(ApiError::BadRequest.status(), 400);
    assert_eq!(ApiError::BadRequest.message(), "The address is not a valid IPv4 address.");
    assert_eq!(ApiError::InternalServerError.status(), 500);
    assert_eq!(ApiError::InternalServerError.message(), "An internal server error occured.");
}

#[test]
fn table_errors_collapse_into_one_failure() {
    assert_eq!(ApiError::from_table(TableError::Capacity), ApiError::InternalServerError);
    assert_eq!(ApiError::from_table(TableError::Backend), ApiError::InternalServerError);
    assert_eq!(
        respond(Err(ApiError::from_table(TableError::Capacity))).body,
        respond(Err(ApiError::from_table(TableError::Backend))).body
    );
}

#[test]
fn success_has_no_body() {
    let response = respond(Ok(()));
    assert_eq!(response.status, 200);
    assert_eq!(response.body, "");
    let plain = HttpResponse::success();
    assert_eq!(plain.status, 200);
    assert_eq!(plain.body, "");
}

#[test]
fn a_response_without_a_rendered_body_takes_the_fallback() {
    let unrendered = serde_json::from_str::<serde_json::Value>("{").unwrap_err();
    let response = HttpResponse::failure(500, Err(unrendered), "{\"error\":\"x\"}");
    assert_eq!(response.status, 500);
    assert_eq!(response.body, "{\"error\":\"x\"}");
    let rendered = HttpResponse::failure(500, Ok("{}".to_string()), "[]");
    assert_eq!(rendered.status, 500);
    assert_eq!(rendered.body, "{}");
}

#[test]
fn the_ready_body_is_the_rendered_body() {
    for error in [ApiError::InternalServerError, ApiError::BadRequest] {
        assert_eq!(error.ready_body(), error.into_response().body);
        assert!(!error.ready_body().is_empty());
    }
    assert_eq!(ApiError::InternalServerError.ready_body(), ERROR_BODY);
}

#[test]
fn handles_share_one_table() {
    let app = AppState::new(shared(8));
    let first = app.blocklist_map_state();
    let second = app.clone().blocklist_map_state();
    assert_eq!(add(first.clone(), body("192.0.2.1")), Ok(()));
    assert_eq!(second.contains(0xC000_0201), Ok(true));
    assert_eq!(remove(second.clone(), "192.0.2.1"), Ok(()));
    assert_eq!(first.contains(0xC000_0201), Ok(false));
}

#[test]
fn adds_of_distinct_addresses_all_land() {
    let state = shared(32);
    for i in 0..32u32 {
        assert_eq!(add(state.clone(), ApiBody { ip: format!("10.1.2.{}", 31 - i) }), Ok(()));
    }
    for i in 0..32u32 {
        assert_eq!(state.contains(0x0A01_0200 + i), Ok(true));
    }
    assert_eq!(state.contains(0x0A01_0200 + 32), Ok(false));
    assert_eq!(add(state.clone(), body("10.1.2.32")), Err(ApiError::InternalServerError));
}

#[test]
fn a_shared_table_without_room_takes_nothing() {
    let state = shared(0);
    let zero = Record::zeroed();
    assert_eq!(state.with_write(TableCommand::Insert { key: 5, value: zero }), Err(TableError::Capacity));
    assert_eq!(state.contains(5), Ok(false));
    assert_eq!(state.with_write(TableCommand::Remove { key: 5 }), Ok(()));
    assert_eq!(state.contains(5), Ok(false));
}

#[test]
fn with_write_changes_the_shared_table() {
    let state = shared(2);
    let zero = Record::zeroed();
    assert_eq!(state.with_write(TableCommand::Insert { key: 5, value: zero }), Ok(()));
    assert_eq!(state.with_write(TableCommand::Insert { key: 6, value: zero }), Ok(()));
    assert_eq!(state.with_write(TableCommand::Insert { key: 7, value: zero }), Err(TableError::Capacity));
    assert_eq!(state.with_write(TableCommand::Insert { key: 6, value: zero }), Ok(()));
    assert_eq!(state.contains(5), Ok(true));
    assert_eq!(state.contains(6), Ok(true));
    assert_eq!(state.contains(7), Ok(false));
    assert_eq!(state.with_write(TableCommand::Remove { key: 5 }), Ok(()));
    assert_eq!(state.contains(5), Ok(false));
    assert_eq!(state.with_write(TableCommand::Insert { key: 7, value: zero }), Ok(()));
    assert_eq!(state.contains(7), Ok(true));
}

#[test]
fn a_table_without_room_refuses_every_add() {
    let state = shared(0);
    assert_eq!(add(state.clone(), body("10.0.0.1")), Err(ApiError::InternalServerError));
    assert_eq!(state.contains(167772161), Ok(false));
    assert_eq!(remove(state.clone(), "10.0.0.1"), Ok(()));
}
