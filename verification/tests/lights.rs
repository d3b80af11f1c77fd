use flic_async_rs::cli::flic_server_address;
use flic_async_rs::flic::enums::ClickType;
use flic_async_rs::flic::events::{Event, EventResult};
use flic_async_rs::hue::{
    find_light, group_action_url, light_row, on_label, parse_response, push_decimal,
    relevant_light, toggled_power, HueError, JsonNumber, JsonValue, LightInfo,
    Power,
};
use flic_async_rs::lights_controller::{event_action, toggle_all, ControllerAction, LightSwitch};
use flic_async_rs::state::State;

fn light(id: usize, name: &str, on: bool) -> LightInfo {
    LightInfo { id, name: name.to_string(), on, bri: None, hue: None, sat: None, ct: None }
}

fn saved(state: &State) -> Vec<(usize, String, bool)> {
    state.lights.iter().map(|l| (l.id, l.name.clone(), l.on)).collect()
}

#[test]
fn state_starts_empty_saves_in_order_and_clears() {
    let mut state = State::new();
    assert!(state.lights.is_empty());
    state.save(&light(3, "hall", true));
    state.save(&light(1, "desk", false));
    assert_eq!(saved(&state), vec![(3, "hall".to_string(), true), (1, "desk".to_string(), false)]);
    state.clear();
    assert!(state.lights.is_empty());
}

#[test]
fn toggle_with_a_light_on_switches_off_and_remembers() {
    let mut state = State::new();
    state.save(&light(9, "old", true));
    let lights = vec![light(1, "a", true), light(2, "b", false), light(3, "c", true)];
    let switches = toggle_all(&mut state, &lights);
    assert_eq!(switches, vec![LightSwitch::TurnOff(1), LightSwitch::TurnOff(3)]);
    assert_eq!(
        saved(&state),
        vec![(1, "a".to_string(), true), (2, "b".to_string(), false), (3, "c".to_string(), true)]
    );
}

#[test]
fn toggle_with_all_off_switches_on_the_remembered_lights() {
    let mut state = State::new();
    state.save(&light(1, "a", true));
    state.save(&light(2, "b", false));
    state.save(&light(3, "c", true));
    let lights = vec![light(1, "a", false), light(2, "b", false)];
    let switches = toggle_all(&mut state, &lights);
    assert_eq!(switches, vec![LightSwitch::TurnOn(1), LightSwitch::TurnOn(3)]);
    assert_eq!(state.lights.len(), 3);
}

#[test]
fn toggling_twice_restores_the_lights() {
    let mut state = State::new();
    let lights = vec![light(4, "a", false), light(5, "b", true), light(6, "c", true)];
    let first = toggle_all(&mut state, &lights);
    let remembered = saved(&state);
    let reported: Vec<LightInfo> = lights.iter().map(|l| light(l.id, &l.name, false)).collect();
    let second = toggle_all(&mut state, &reported);
    assert_eq!(first, vec![LightSwitch::TurnOff(5), LightSwitch::TurnOff(6)]);
    assert_eq!(second, vec![LightSwitch::TurnOn(5), LightSwitch::TurnOn(6)]);
    assert_eq!(saved(&state), remembered);
}

#[test]
fn toggle_with_nothing_saved_and_all_off_does_nothing() {
    let mut state = State::new();
    let switches = toggle_all(&mut state, &vec![light(1, "a", false)]);
    assert!(switches.is_empty());
    assert!(state.lights.is_empty());
    assert!(toggle_all(&mut state, &vec![]).is_empty());
}

fn report(click_type: ClickType, time_diff: i32) -> EventResult {
    EventResult::Event(Event::ButtonSingleOrDoubleClickOrHold {
        conn_id: 2,
        click_type,
        was_queued: false,
        time_diff,
    })
}

#[test]
fn event_actions() {
    assert_eq!(event_action(&report(ClickType::ButtonSingleClick, 0)), ControllerAction::Click);
    assert_eq!(event_action(&report(ClickType::ButtonDoubleClick, 4)), ControllerAction::DoubleClick);
    assert_eq!(event_action(&report(ClickType::ButtonHold, -3)), ControllerAction::Hold);
    assert_eq!(event_action(&report(ClickType::ButtonSingleClick, 5)), ControllerAction::Ignore);
    assert_eq!(event_action(&report(ClickType::ButtonClick, 0)), ControllerAction::Ignore);
    assert_eq!(event_action(&report(ClickType::ButtonDown, 0)), ControllerAction::Ignore);
    assert_eq!(event_action(&EventResult::Event(Event::NoOp)), ControllerAction::Ignore);
    assert_eq!(event_action(&EventResult::NoEvent), ControllerAction::Ignore);
}

#[test]
fn finding_lights() {
    let lights = vec![light(6, "a", true), light(2, "b", false), light(6, "c", false)];
    assert_eq!(find_light(&lights, 6), Some(0));
    assert_eq!(find_light(&lights, 2), Some(1));
    assert_eq!(find_light(&lights, 7), None);
    assert_eq!(find_light(&vec![], 1), None);
}

#[test]
fn every_light_is_relevant() {
    assert!(relevant_light(&light(1, "a", false)));
    assert!(relevant_light(&light(7, "b", true)));
}

#[test]
fn toggling_one_light() {
    assert_eq!(toggled_power(true), Power::Off);
    assert_eq!(toggled_power(false), Power::On);
}

#[test]
fn light_rows() {
    let l = LightInfo {
        id: 12,
        name: "lamp".to_string(),
        on: true,
        bri: Some(200),
        hue: Some(8418),
        sat: Some(140),
        ct: Some(250),
    };
    let row = light_row(&l);
    assert_eq!(
        (row.id, row.name.as_str(), row.on, row.bri, row.hue, row.sat, row.kelvin),
        (12, "lamp", true, 200, 8418, 140, 4000)
    );
    let bare = light_row(&light(1, "x", false));
    assert_eq!((bare.bri, bare.hue, bare.sat, bare.kelvin), (0, 0, 0, 0));
    let zero = light_row(&LightInfo { ct: Some(0), ..light(1, "x", false) });
    assert_eq!(zero.kelvin, 0);
    let odd = light_row(&LightInfo { ct: Some(153), ..light(1, "x", false) });
    assert_eq!(odd.kelvin, 6535);
    assert_eq!(on_label(true), "on");
    assert_eq!(on_label(false), "off");
}

#[test]
fn group_urls() {
    assert_eq!(
        group_action_url("192.168.1.2", "someuser", 9),
        "http://192.168.1.2/api/someuser/groups/9/action"
    );
    assert_eq!(group_action_url("h", "u", 0), "http://h/api/u/groups/0/action");
    assert_eq!(group_action_url("h", "u", 1207), "http://h/api/u/groups/1207/action");
}

#[test]
fn decimals() {
    let mut s = "x".to_string();
    push_decimal(&mut s, 10);
    assert_eq!(s, "x10");
    let mut m = String::new();
    push_decimal(&mut m, usize::MAX);
    assert_eq!(m, usize::MAX.to_string());
}

#[test]
fn server_address() {
    assert_eq!(flic_server_address("pi.local"), "pi.local:5551");
}

fn text(s: &str) -> JsonValue {
    JsonValue::Text(s.to_string())
}

fn number(n: u64) -> JsonValue {
    JsonValue::Number(JsonNumber { unsigned: Some(n), text: n.to_string() })
}

fn object(members: Vec<(&str, JsonValue)>) -> JsonValue {
    JsonValue::Object(members.into_iter().map(|(k, v)| (k.to_string(), v)).collect())
}

fn protocol_msg(r: Result<JsonValue, HueError>) -> String {
    match r {
        Err(HueError::ProtocolError { msg }) => msg,
        _ => panic!("expected a protocol error"),
    }
}

#[test]
fn response_that_is_not_an_array_is_taken_whole() {
    match parse_response(object(vec![("a", number(1))])) {
        Ok(JsonValue::Object(m)) => assert_eq!(m[0].0, "a"),
        _ => panic!("expected the object back"),
    }
    assert!(matches!(parse_response(JsonValue::Null), Ok(JsonValue::Null)));
}

#[test]
fn empty_response_array_is_refused() {
    assert_eq!(protocol_msg(parse_response(JsonValue::Array(vec![]))), "expected non-empty array");
}

#[test]
fn first_item_must_be_an_object() {
    assert_eq!(
        protocol_msg(parse_response(JsonValue::Array(vec![text("x")]))),
        "expected first item to be an object"
    );
}

#[test]
fn bridge_errors_are_reported() {
    let answer = JsonValue::Array(vec![object(vec![(
        "error",
        object(vec![("type", number(3)), ("address", text("/groups/9")), ("description", text("resource not available"))]),
    )])]);
    match parse_response(answer) {
        Err(HueError::BridgeError { code, msg }) => {
            assert_eq!(code, 3);
            assert_eq!(msg, "resource not available");
        }
        _ => panic!("expected a bridge error"),
    }
    let bare = JsonValue::Array(vec![object(vec![("error", object(vec![]))])]);
    match parse_response(bare) {
        Err(HueError::BridgeError { code, msg }) => {
            assert_eq!(code, 0);
            assert_eq!(msg, "");
        }
        _ => panic!("expected a bridge error"),
    }
}

#[test]
fn success_answer_gives_the_first_item() {
    let answer = JsonValue::Array(vec![
        object(vec![("success", object(vec![("/groups/9/action/on", JsonValue::Bool(true))]))]),
        object(vec![("success", number(2))]),
    ]);
    match parse_response(answer) {
        Ok(JsonValue::Object(m)) => {
            assert_eq!(m.len(), 1);
            assert_eq!(m[0].0, "success");
            assert!(matches!(&m[0].1, JsonValue::Object(inner) if inner.len() == 1));
        }
        _ => panic!("expected the first item"),
    }
    // an error member that is not an object is no bridge error
    let odd = JsonValue::Array(vec![object(vec![("error", text("x"))])]);
    assert!(matches!(parse_response(odd), Ok(JsonValue::Object(_))));
}
