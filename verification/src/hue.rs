use vstd::prelude::*;
use vstd::string::StringExecFns;

verus! {

/// A light as the bridge reports it: its id, name, whether it is on, and the
/// brightness, hue, saturation and colour temperature (in mired) it reports.
pub struct LightInfo {
    pub id: usize,
    pub name: String,
    pub on: bool,
    pub bri: Option<u8>,
    pub hue: Option<u16>,
    pub sat: Option<u8>,
    pub ct: Option<u16>,
}

/// The power state to ask a light for.
#[derive(Debug, Clone, Copy, PartialEq, Eq, Structural)]
pub enum Power {
    On,
    Off,
}

/// The power state that toggles a light that is `currently_on`.
pub fn toggled_power(currently_on: bool) -> (p: Power)
    ensures
        p == (if currently_on {
            Power::Off
        } else {
            Power::On
        }),
{
    if currently_on {
        Power::Off
    } else {
        Power::On
    }
}

/// Whether `lights[i]` is the first light of `lights` with this id.
pub open spec fn is_first_with_id(lights: Seq<LightInfo>, id: usize, i: int) -> bool {
    &&& 0 <= i < lights.len()
    &&& lights[i].id == id
    &&& forall|j: int| 0 <= j < i ==> #[trigger] lights[j].id != id
}

/// The position of the first light with this id, or `None` when no light has it.
pub fn find_light(lights: &Vec<LightInfo>, id: usize) -> (r: Option<usize>)
    ensures
        match r {
            Some(i) => is_first_with_id(lights@, id, i as int),
            None => forall|j: int| 0 <= j < lights@.len() ==> #[trigger] lights@[j].id != id,
        },
{
    let mut i: usize = 0;
    while i < lights.len()
        invariant
            i <= lights@.len(),
            forall|j: int| 0 <= j < i ==> #[trigger] lights@[j].id != id,
        decreases lights@.len() - i,
    {
        if lights[i].id == id {
            return Some(i);
        }
        i = i + 1;
    }
    None
}

/// Whether the controller acts on this light: it acts on every light.
pub fn relevant_light(light: &LightInfo) -> (r: bool)
    ensures
        r,
{
    true
}

/// One row of the light listing.
pub struct LightRow {
    pub id: usize,
    pub name: String,
    pub on: bool,
    pub bri: u8,
    pub hue: u16,
    pub sat: u8,
    pub kelvin: u32,
}

/// The colour temperature in kelvin of a temperature in mired (reciprocal
/// megakelvin); 0 for 0.
pub open spec fn mired_to_kelvin(ct: u16) -> u32 {
    if ct != 0 {
        (1000000int / (ct as int)) as u32
    } else {
        0
    }
}

/// The temperature in kelvin is the whole quotient of a million by the full
/// temperature in mired: `kelvin * ct <= 1000000 < (kelvin + 1) * ct`; a
/// temperature of 0 mired reads as 0 kelvin.
pub proof fn lemma_kelvin_is_the_quotient(ct: u16)
    ensures
        ct != 0 ==> mired_to_kelvin(ct) * ct <= 1000000 < (mired_to_kelvin(ct) + 1) * ct,
        ct == 0 ==> mired_to_kelvin(ct) == 0,
{
    if ct != 0 {
        let d = ct as int;
        let q = 1000000int / d;
        assert(q * d <= 1000000 < (q + 1) * d && 0 <= q <= 1000000) by (nonlinear_arith)
            requires
                d >= 1,
                q == 1000000int / d,
        ;
        assert(mired_to_kelvin(ct) == q);
    }
}

/// The row that lists `light`: missing brightness, hue, saturation and
/// temperature read as 0, the temperature is given in kelvin.
pub fn light_row(light: &LightInfo) -> (row: LightRow)
    ensures
        row.id == light.id,
        row.name == light.name,
        row.on == light.on,
        row.bri == (match light.bri {
            Some(b) => b,
            None => 0,
        }),
        row.hue == (match light.hue {
            Some(h) => h,
            None => 0,
        }),
        row.sat == (match light.sat {
            Some(s) => s,
            None => 0,
        }),
        row.kelvin == (match light.ct {
            Some(k) => mired_to_kelvin(k),
            None => 0,
        }),
{
    let bri = match light.bri {
        Some(b) => b,
        None => 0,
    };
    let hue = match light.hue {
        Some(h) => h,
        None => 0,
    };
    let sat = match light.sat {
        Some(s) => s,
        None => 0,
    };
    let kelvin: u32 = match light.ct {
        Some(k) => if k != 0 {
            1000000u32 / (k as u32)
        } else {
            0
        },
        None => 0,
    };
    LightRow { id: light.id, name: light.name.clone(), on: light.on, bri, hue, sat, kelvin }
}

/// The word that the light listing shows for a light's power state.
pub fn on_label(on: bool) -> (label: &'static str)
    ensures
        label@ == (if on {
            "on"@
        } else {
            "off"@
        }),
{
    if on {
        "on"
    } else {
        "off"
    }
}

/// The decimal digit character of `d`, for `d < 10`.
pub open spec fn digit_char(d: nat) -> char {
    (48 + d) as char
}

/// The decimal notation of `n`, without leading zeros.
pub open spec fn decimal(n: nat) -> Seq<char>
    decreases n,
{
    if n < 10 {
        seq![digit_char(n)]
    } else {
        decimal(n / 10) + seq![digit_char(n % 10)]
    }
}

/// The number that a string of decimal digits writes.
pub open spec fn digits_value(s: Seq<char>) -> int
    decreases s.len(),
{
    if s.len() == 0 {
        0
    } else {
        10 * digits_value(s.drop_last()) + (s.last() as int - 48)
    }
}

/// The decimal notation of `n` is made of the digits `0` to `9`, does not start
/// with `0` unless `n` is 0, and reads back as `n`.
pub proof fn lemma_decimal_reads_back(n: nat)
    ensures
        decimal(n).len() >= 1,
        forall|i: int| 0 <= i < decimal(n).len() ==> '0' <= #[trigger] decimal(n)[i] <= '9',
        n > 0 ==> decimal(n)[0] != '0',
        digits_value(decimal(n)) == n,
    decreases n,
{
    assert(digit_char(n % 10) as int == 48 + n % 10);
    if n >= 10 {
        lemma_decimal_reads_back(n / 10);
        let d = decimal(n);
        assert(d.drop_last() =~= decimal(n / 10));
        assert(d.last() == digit_char(n % 10));
        assert(digits_value(d) == 10 * (n / 10) + n % 10);
        assert(d[0] == decimal(n / 10)[0]);
        assert forall|i: int| 0 <= i < d.len() implies '0' <= #[trigger] d[i] <= '9' by {
            if i < d.len() - 1 {
                assert(d[i] == decimal(n / 10)[i]);
            }
        }
    } else {
        let d = decimal(n);
        assert(d.drop_last() =~= Seq::<char>::empty());
        assert(digits_value(d.drop_last()) == 0);
        assert(d.last() == digit_char(n));
        assert(digits_value(d) == 10 * digits_value(d.drop_last()) + (d.last() as int - 48));
    }
}

fn digit_str(d: usize) -> (s: &'static str)
    requires
        d < 10,
    ensures
        s@ == seq![digit_char(d as nat)],
{
    proof {
        reveal_strlit("0");
        reveal_strlit("1");
        reveal_strlit("2");
        reveal_strlit("3");
        reveal_strlit("4");
        reveal_strlit("5");
        reveal_strlit("6");
        reveal_strlit("7");
        reveal_strlit("8");
        reveal_strlit("9");
    }
    if d == 0 {
        "0"
    } else if d == 1 {
        "1"
    } else if d == 2 {
        "2"
    } else if d == 3 {
        "3"
    } else if d == 4 {
        "4"
    } else if d == 5 {
        "5"
    } else if d == 6 {
        "6"
    } else if d == 7 {
        "7"
    } else if d == 8 {
        "8"
    } else {
        "9"
    }
}

/// Appends the decimal notation of `n` to `s`.
pub fn push_decimal(s: &mut String, n: usize)
    ensures
        final(s)@ == old(s)@ + decimal(n as nat),
    decreases n,
{
    if n >= 10 {
        push_decimal(s, n / 10);
    }
    s.append(digit_str(n % 10));
    assert(final(s)@ =~= old(s)@ + decimal(n as nat)) by {
        if n >= 10 {
            assert(decimal(n as nat) == decimal((n / 10) as nat) + seq![digit_char((n % 10) as nat)]);
        }
    }
}

/// The address of a group's action on the bridge at `ip`, for the user `username`:
/// `http://{ip}/api/{username}/groups/{group}/action`.
pub fn group_action_url(ip: &str, username: &str, group: usize) -> (url: String)
    ensures
        url@ == "http://"@ + ip@ + "/api/"@ + username@ + "/groups/"@ + decimal(group as nat)
            + "/action"@,
{
    let mut url = String::from_str("http://");
    url.append(ip);
    url.append("/api/");
    url.append(username);
    url.append("/groups/");
    push_decimal(&mut url, group);
    url.append("/action");
    url
}

/// A JSON number: its value when it is a whole number that fits in `u64`, and
/// the text that writes it.
pub struct JsonNumber {
    pub unsigned: Option<u64>,
    pub text: String,
}

/// A JSON value as the bridge answers with. An object lists its members in
/// order, each key once.
pub enum JsonValue {
    Null,
    Bool(bool),
    Number(JsonNumber),
    Text(String),
    Array(Vec<JsonValue>),
    Object(Vec<(String, JsonValue)>),
}

/// Why the bridge's answer is refused.
pub enum HueError {
    /// The answer does not have the expected shape.
    ProtocolError { msg: String },
    /// The bridge reported an error, with its code and description.
    BridgeError { code: usize, msg: String },
}

/// The value of the first member of `members` named `key`.
pub open spec fn member(members: Seq<(String, JsonValue)>, key: Seq<char>) -> Option<JsonValue>
    decreases members.len(),
{
    if members.len() == 0 {
        None
    } else if members[0].0@ == key {
        Some(members[0].1)
    } else {
        member(members.drop_first(), key)
    }
}

/// The code of a bridge error object: its `type` member when that is a whole
/// number, else 0.
pub open spec fn error_code(error: Seq<(String, JsonValue)>) -> usize {
    match member(error, "type"@) {
        Some(JsonValue::Number(n)) => match n.unsigned {
            Some(u) => u as usize,
            None => 0,
        },
        _ => 0,
    }
}

/// The description of a bridge error object: its `description` member when
/// that is a string, else the empty string.
pub open spec fn error_description(error: Seq<(String, JsonValue)>) -> Seq<char> {
    match member(error, "description"@) {
        Some(JsonValue::Text(d)) => d@,
        _ => Seq::empty(),
    }
}

/// Whether `r` is what reading the bridge's answer `value` gives. An answer that
/// is not an array is taken whole. An array must not be empty and its first item
/// must be an object; when that object has an `error` member that is an object,
/// the answer is that bridge error, else the answer is the first item.
pub open spec fn response_read(value: JsonValue, r: Result<JsonValue, HueError>) -> bool {
    match value {
        JsonValue::Array(items) => if items.len() == 0 {
            r matches Err(HueError::ProtocolError { msg }) && msg@ == "expected non-empty array"@
        } else {
            match items@[0] {
                JsonValue::Object(members) => match member(members@, "error"@) {
                    Some(JsonValue::Object(error)) => r matches Err(
                        HueError::BridgeError { code, msg },
                    ) && code == error_code(error@) && msg@ == error_description(error@),
                    _ => r == Ok::<JsonValue, HueError>(items@[0]),
                },
                _ => r matches Err(HueError::ProtocolError { msg }) && msg@
                    == "expected first item to be an object"@,
            }
        },
        _ => r == Ok::<JsonValue, HueError>(value),
    }
}

/// A member lookup gives the value of the first member with that key, and
/// nothing when no member has the key.
pub proof fn lemma_member_is_the_first_with_key(members: Seq<(String, JsonValue)>, key: Seq<char>)
    ensures
        member(members, key) is None <==> forall|j: int| 0 <= j < members.len() ==> #[trigger] members[j].0@ != key,
        member(members, key) is Some ==> exists|i: int|
            0 <= i < members.len() && members[i].0@ == key && member(members, key) == Some(
                members[i].1,
            ) && forall|j: int| 0 <= j < i ==> #[trigger] members[j].0@ != key,
    decreases members.len(),
{
    if members.len() > 0 {
        let rest = members.drop_first();
        lemma_member_is_the_first_with_key(rest, key);
        if members[0].0@ == key {
            assert(members[0].0@ == key && member(members, key) == Some(members[0].1));
        } else {
            if member(rest, key) is Some {
                let i = choose|i: int|
                    0 <= i < rest.len() && rest[i].0@ == key && member(rest, key) == Some(rest[i].1)
                        && forall|j: int| 0 <= j < i ==> #[trigger] rest[j].0@ != key;
                assert(members[i + 1] == rest[i]);
                assert forall|j: int| 0 <= j < i + 1 implies #[trigger] members[j].0@ != key by {
                    if j > 0 {
                        assert(members[j] == rest[j - 1]);
                    }
                }
            } else {
                assert forall|j: int| 0 <= j < members.len() implies #[trigger] members[j].0@ != key by {
                    if j > 0 {
                        assert(members[j] == rest[j - 1]);
                    }
                }
            }
        }
    }
}

/// Reading an array answer depends on its first item alone, however many items
/// follow. When the first item is an object with an `error` member that is an
/// object, the answer is a bridge error whose code is that error's whole-number
/// `type` (0 when there is none) and whose message is its string `description`
/// (empty when there is none). When the first item is an object without such a
/// member, the answer is that first item. Any answer that is not an array is
/// taken as it is.
pub proof fn lemma_answer_read_from_first_item(value: JsonValue, r: Result<JsonValue, HueError>)
    requires
        response_read(value, r),
    ensures
        match value {
            JsonValue::Array(items) => items@.len() >= 1 ==> match items@[0] {
                JsonValue::Object(members) => match member(members@, "error"@) {
                    Some(JsonValue::Object(error)) => {
                        &&& r matches Err(HueError::BridgeError { code, msg })
                        &&& (match member(error@, "type"@) {
                            Some(JsonValue::Number(n)) => match n.unsigned {
                                Some(u) => r->Err_0->BridgeError_code == u as usize,
                                None => r->Err_0->BridgeError_code == 0,
                            },
                            _ => r->Err_0->BridgeError_code == 0,
                        })
                        &&& (match member(error@, "description"@) {
                            Some(JsonValue::Text(d)) => r->Err_0->BridgeError_msg@ == d@,
                            _ => r->Err_0->BridgeError_msg@ == Seq::<char>::empty(),
                        })
                    },
                    _ => r == Ok::<JsonValue, HueError>(items@[0]),
                },
                _ => r is Err,
            },
            _ => r == Ok::<JsonValue, HueError>(value),
        },
{
}

/// The position of the first member named `key`, or `None`.
fn find_member(members: &Vec<(String, JsonValue)>, key: &String) -> (r: Option<usize>)
    ensures
        match r {
            Some(i) => i < members@.len() && member(members@, key@) == Some(members@[i as int].1),
            None => member(members@, key@) is None,
        },
{
    let mut i: usize = 0;
    assert(members@.skip(0) =~= members@);
    while i < members.len()
        invariant
            i <= members@.len(),
            member(members@, key@) == member(members@.skip(i as int), key@),
        decreases members@.len() - i,
    {
        proof {
            assert(members@.skip(i as int).drop_first() =~= members@.skip(i + 1));
        }
        if members[i].0 == *key {
            return Some(i);
        }
        i = i + 1;
    }
    None
}

/// The code of the bridge error object `error`.
fn read_error_code(error: &Vec<(String, JsonValue)>) -> (code: usize)
    ensures
        code == error_code(error@),
{
    let key = String::from_str("type");
    match find_member(error, &key) {
        Some(i) => match &error[i].1 {
            JsonValue::Number(n) => match n.unsigned {
                Some(u) => #[verifier::truncate] (u as usize),
                None => 0,
            },
            _ => 0,
        },
        None => 0,
    }
}

/// The description of the bridge error object `error`.
fn read_error_description(error: &Vec<(String, JsonValue)>) -> (desc: String)
    ensures
        desc@ == error_description(error@),
{
    let key = String::from_str("description");
    match find_member(error, &key) {
        Some(i) => match &error[i].1 {
            JsonValue::Text(d) => d.clone(),
            _ => String::new(),
        },
        None => String::new(),
    }
}

/// Reads the bridge's answer to a request (see `response_read`).
pub fn parse_response(value: JsonValue) -> (r: Result<JsonValue, HueError>)
    ensures
        response_read(value, r),
{
    match value {
        JsonValue::Array(mut items) => {
            if items.len() == 0 {
                return Err(
                    HueError::ProtocolError { msg: String::from_str("expected non-empty array") },
                );
            }
            let first = items.remove(0);
            match &first {
                JsonValue::Object(members) => {
                    let key = String::from_str("error");
                    match find_member(members, &key) {
                        Some(i) => match &members[i].1 {
                            JsonValue::Object(error) => {
                                return Err(
                                    HueError::BridgeError {
                                        code: read_error_code(error),
                                        msg: read_error_description(error),
                                    },
                                );
                            },
                            _ => {},
                        },
                        None => {},
                    }
                },
                _ => {
                    return Err(
                        HueError::ProtocolError {
                            msg: String::from_str("expected first item to be an object"),
                        },
                    );
                },
            }
            Ok(first)
        },
        other => Ok(other),
    }
}

} // verus!
