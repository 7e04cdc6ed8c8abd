//! The registry's event payloads and their decoding.
use vstd::prelude::*;

use crate::json::{find_member, get_string_member, member, string_member, JsonValue};

verus! {

/// What `BigDecimal` parsing followed by `to_u64` gives for a text: `None` when the
/// text is no decimal number, `Some(None)` when it is one that no `u64` holds.
pub uninterp spec fn decimal_u64_of(text: Seq<char>) -> Option<Option<u64>>;

/// Whether an exponent, if the text has one, is written in at most four characters
/// after its `e` or `E`: a magnitude below 10000.
pub open spec fn exponent_is_short(text: Seq<char>) -> bool {
    forall|i: int|
        0 <= i < text.len() && (#[trigger] text[i] == 'e' || text[i] == 'E') ==> text.len() - i
            <= 5
}

/// Tests `exponent_is_short`.
pub fn has_short_exponent(text: &str) -> (r: bool)
    ensures
        r == exponent_is_short(text@),
{
    let n: usize = text.unicode_len();
    let mut i: usize = 0;
    while i < n
        invariant
            n == text@.len(),
            i <= n,
            forall|j: int|
                0 <= j < i && (#[trigger] text@[j] == 'e' || text@[j] == 'E') ==> n - j <= 5,
        decreases n - i,
    {
        let c = text.get_char(i);
        if (c == 'e' || c == 'E') && n - i > 5 {
            return false;
        }
        i = i + 1;
    }
    true
}

/// Relies on bigdecimal's `FromStr` for `BigDecimal` (decimal text with optional sign,
/// fraction and exponent) and on its `ToPrimitive::to_u64`, which drops the fraction
/// and gives `None` for a negative value or one above `u64::MAX`. Both return on every
/// text whose exponent is short: a long one overflows the scale or asks for a power of
/// ten that no memory holds.
#[verifier::external_body]
pub(crate) fn parse_decimal_u64(text: &str) -> (r: Option<Option<u64>>)
    requires
        exponent_is_short(text@),
    ensures
        r == decimal_u64_of(text@),
{
    match text.parse::<bigdecimal::BigDecimal>() {
        Ok(d) => Some(bigdecimal::ToPrimitive::to_u64(&d)),
        Err(_) => None,
    }
}

/// An optional string as the registry's contract encodes it: a list of zero or one
/// string.
#[derive(Debug)]
pub struct OptionalString {
    pub vec: Vec<String>,
}

impl View for OptionalString {
    type V = Seq<Seq<char>>;

    open spec fn view(&self) -> Seq<Seq<char>> {
        self.vec@.map_values(|s: String| s@)
    }
}

/// The first element, if any.
pub open spec fn first_of(items: Seq<Seq<char>>) -> Option<Seq<char>> {
    if items.len() == 0 {
        None
    } else {
        Some(items[0])
    }
}

impl OptionalString {
    pub fn get_string(&self) -> (r: Option<String>)
        ensures
            r matches Some(s) ==> first_of(self@) == Some(s@),
            r is None ==> first_of(self@) is None,
    {
        if self.vec.len() == 0 {
            None
        } else {
            Some(self.vec[0].clone())
        }
    }
}

/// Whether every item is a string.
pub open spec fn all_strings(items: Seq<JsonValue>) -> bool {
    forall|i: int| 0 <= i < items.len() ==> items[i] is Str
}

/// The texts of a list of strings.
pub open spec fn string_items(items: Seq<JsonValue>) -> Seq<Seq<char>> {
    items.map_values(
        |v: JsonValue|
            match v {
                JsonValue::Str(s) => s@,
                _ => Seq::empty(),
            },
    )
}

/// The optional string encoded by an object whose member `vec` is a list of strings.
pub open spec fn optional_string_of(v: JsonValue) -> Option<Seq<Seq<char>>> {
    match v {
        JsonValue::Object(inner) => match member(inner@, "vec"@) {
            Some(JsonValue::Array(items)) => if all_strings(items@) {
                Some(string_items(items@))
            } else {
                None
            },
            _ => None,
        },
        _ => None,
    }
}

/// The optional string held by member `key` of an object.
pub open spec fn optional_member(fields: Seq<(String, JsonValue)>, key: Seq<char>) -> Option<
    Seq<Seq<char>>,
> {
    match member(fields, key) {
        Some(v) => optional_string_of(v),
        None => None,
    }
}

/// Decodes an optional string.
pub fn decode_optional_string(v: &JsonValue) -> (r: Option<OptionalString>)
    ensures
        r matches Some(o) ==> optional_string_of(*v) == Some(o@),
        r is None ==> optional_string_of(*v) is None,
{
    match v {
        JsonValue::Object(inner) => match find_member(inner, "vec") {
            Some(JsonValue::Array(items)) => {
                let mut out: Vec<String> = Vec::new();
                let mut i: usize = 0;
                while i < items.len()
                    invariant
                        i <= items.len(),
                        out.len() == i,
                        *v == JsonValue::Object(*inner),
                        member(inner@, "vec"@) == Some(JsonValue::Array(*items)),
                        forall|j: int|
                            0 <= j < i ==> (#[trigger] items@[j] matches JsonValue::Str(s) && out@[j]@ == s@),
                    decreases items.len() - i,
                {
                    match &items[i] {
                        JsonValue::Str(s) => {
                            out.push(s.clone());
                        },
                        _ => {
                            assert(!all_strings(items@));
                            return None;
                        },
                    }
                    i = i + 1;
                }
                assert(all_strings(items@));
                assert(out@.map_values(|s: String| s@) =~= string_items(items@));
                Some(OptionalString { vec: out })
            },
            _ => None,
        },
        _ => None,
    }
}

/// Decodes the optional string held by member `key` of an object.
pub fn decode_optional_member(fields: &Vec<(String, JsonValue)>, key: &str) -> (r: Option<
    OptionalString,
>)
    ensures
        r matches Some(o) ==> optional_member(fields@, key@) == Some(o@),
        r is None ==> optional_member(fields@, key@) is None,
{
    match find_member(fields, key) {
        Some(v) => decode_optional_string(v),
        None => None,
    }
}

/// Why a payload does not decode.
#[derive(Debug)]
pub enum DecodeCause {
    /// The payload is not an object.
    NotAnObject,
    /// The first member of the event's layout, in layout order, that is missing or does
    /// not have its shape.
    BadField(String),
}

pub enum DecodeCauseView {
    NotAnObject,
    BadField(Seq<char>),
}

impl View for DecodeCause {
    type V = DecodeCauseView;

    open spec fn view(&self) -> DecodeCauseView {
        match self {
            DecodeCause::NotAnObject => DecodeCauseView::NotAnObject,
            DecodeCause::BadField(f) => DecodeCauseView::BadField(f@),
        }
    }
}

/// A change of the address that a name resolves to.
#[derive(Debug)]
pub struct SetNameAddressEventV1 {
    pub subdomain_name: OptionalString,
    pub domain_name: String,
    pub new_address: OptionalString,
    /// Seconds since the epoch, as decimal text.
    pub expiration_time_secs: String,
    /// That text as an unsigned integer; `None` when it is negative, too large, or has an
    /// exponent too long to convert.
    pub expiration_secs: Option<u64>,
}

/// The registration of a name.
#[derive(Debug)]
pub struct RegisterNameEventV1 {
    pub subdomain_name: OptionalString,
    pub domain_name: String,
    /// Seconds since the epoch, as decimal text.
    pub expiration_time_secs: String,
    /// That text as an unsigned integer; `None` when it is negative, too large, or has an
    /// exponent too long to convert.
    pub expiration_secs: Option<u64>,
}

/// A decoded event of the registry.
#[derive(Debug)]
pub enum ANSEvent {
    SetNameAddressEventV1(SetNameAddressEventV1),
    RegisterNameEventV1(RegisterNameEventV1),
}

/// What a decoded event holds; a registration carries no address.
pub struct AnsEventView {
    pub registration: bool,
    pub subdomain_name: Seq<Seq<char>>,
    pub domain_name: Seq<char>,
    pub new_address: Seq<Seq<char>>,
    pub expiration_time_secs: Seq<char>,
    pub expiration_secs: Option<u64>,
}

impl View for ANSEvent {
    type V = AnsEventView;

    open spec fn view(&self) -> AnsEventView {
        match self {
            ANSEvent::SetNameAddressEventV1(e) => AnsEventView {
                registration: false,
                subdomain_name: e.subdomain_name@,
                domain_name: e.domain_name@,
                new_address: e.new_address@,
                expiration_time_secs: e.expiration_time_secs@,
                expiration_secs: e.expiration_secs,
            },
            ANSEvent::RegisterNameEventV1(e) => AnsEventView {
                registration: true,
                subdomain_name: e.subdomain_name@,
                domain_name: e.domain_name@,
                new_address: Seq::empty(),
                expiration_time_secs: e.expiration_time_secs@,
                expiration_secs: e.expiration_secs,
            },
        }
    }
}

/// The expiration member: its text and that text as an unsigned integer. `None` when the
/// member is no string, or is text with a short exponent that is no decimal number; text
/// with a long exponent is kept, with no integer.
pub open spec fn expiration_member(fields: Seq<(String, JsonValue)>) -> Option<
    (Seq<char>, Option<u64>),
> {
    match string_member(fields, "expiration_time_secs"@) {
        Some(text) => if !exponent_is_short(text) {
            Some((text, None))
        } else {
            match decimal_u64_of(text) {
                Some(n) => Some((text, n)),
                None => None,
            }
        },
        None => None,
    }
}

/// What a payload decodes to for the event's kind: an object with the members below
/// (others are ignored); or the first thing that does not fit.
pub open spec fn decoded_event(payload: JsonValue, registration: bool) -> Result<
    AnsEventView,
    DecodeCauseView,
> {
    match payload {
        JsonValue::Object(fields) => {
            let sub = optional_member(fields@, "subdomain_name"@);
            let dom = string_member(fields@, "domain_name"@);
            let addr = if registration {
                Some(Seq::empty())
            } else {
                optional_member(fields@, "new_address"@)
            };
            let exp = expiration_member(fields@);
            if sub is None {
                Err(DecodeCauseView::BadField("subdomain_name"@))
            } else if dom is None {
                Err(DecodeCauseView::BadField("domain_name"@))
            } else if addr is None {
                Err(DecodeCauseView::BadField("new_address"@))
            } else if exp is None {
                Err(DecodeCauseView::BadField("expiration_time_secs"@))
            } else {
                Ok(
                    AnsEventView {
                        registration,
                        subdomain_name: sub->0,
                        domain_name: dom->0,
                        new_address: addr->0,
                        expiration_time_secs: (exp->0).0,
                        expiration_secs: (exp->0).1,
                    },
                )
            }
        },
        _ => Err(DecodeCauseView::NotAnObject),
    }
}

/// Reads the expiration member.
fn decode_expiration(fields: &Vec<(String, JsonValue)>) -> (r: Option<(String, Option<u64>)>)
    ensures
        r matches Some(p) ==> expiration_member(fields@) == Some((p.0@, p.1)),
        r is None ==> expiration_member(fields@) is None,
{
    match get_string_member(fields, "expiration_time_secs") {
        Some(text) => {
            if !has_short_exponent(text.as_str()) {
                Some((text, None))
            } else {
                match parse_decimal_u64(text.as_str()) {
                    Some(n) => Some((text, n)),
                    None => None,
                }
            }
        },
        None => None,
    }
}

/// A cause naming a member of the layout.
fn bad_field(name: &str) -> (r: DecodeCause)
    ensures
        r@ == DecodeCauseView::BadField(name@),
{
    DecodeCause::BadField(name.to_owned())
}

/// Decodes the payload of an address change.
pub fn decode_set_name_address(payload: &JsonValue) -> (r: Result<SetNameAddressEventV1, DecodeCause>)
    ensures
        r matches Ok(e) ==> decoded_event(*payload, false) == Ok::<AnsEventView, DecodeCauseView>(
            ANSEvent::SetNameAddressEventV1(e)@,
        ),
        r matches Err(c) ==> decoded_event(*payload, false) == Err::<AnsEventView, DecodeCauseView>(
            c@,
        ),
{
    match payload {
        JsonValue::Object(fields) => {
            let subdomain_name = match decode_optional_member(fields, "subdomain_name") {
                Some(o) => o,
                None => {
                    return Err(bad_field("subdomain_name"));
                },
            };
            let domain_name = match get_string_member(fields, "domain_name") {
                Some(s) => s,
                None => {
                    return Err(bad_field("domain_name"));
                },
            };
            let new_address = match decode_optional_member(fields, "new_address") {
                Some(o) => o,
                None => {
                    return Err(bad_field("new_address"));
                },
            };
            let (expiration_time_secs, expiration_secs) = match decode_expiration(fields) {
                Some(p) => p,
                None => {
                    return Err(bad_field("expiration_time_secs"));
                },
            };
            Ok(
                SetNameAddressEventV1 {
                    subdomain_name,
                    domain_name,
                    new_address,
                    expiration_time_secs,
                    expiration_secs,
                },
            )
        },
        _ => Err(DecodeCause::NotAnObject),
    }
}

/// Decodes the payload of a registration.
pub fn decode_register_name(payload: &JsonValue) -> (r: Result<RegisterNameEventV1, DecodeCause>)
    ensures
        r matches Ok(e) ==> decoded_event(*payload, true) == Ok::<AnsEventView, DecodeCauseView>(
            ANSEvent::RegisterNameEventV1(e)@,
        ),
        r matches Err(c) ==> decoded_event(*payload, true) == Err::<AnsEventView, DecodeCauseView>(
            c@,
        ),
{
    match payload {
        JsonValue::Object(fields) => {
            let subdomain_name = match decode_optional_member(fields, "subdomain_name") {
                Some(o) => o,
                None => {
                    return Err(bad_field("subdomain_name"));
                },
            };
            let domain_name = match get_string_member(fields, "domain_name") {
                Some(s) => s,
                None => {
                    return Err(bad_field("domain_name"));
                },
            };
            let (expiration_time_secs, expiration_secs) = match decode_expiration(fields) {
                Some(p) => p,
                None => {
                    return Err(bad_field("expiration_time_secs"));
                },
            };
            Ok(
                RegisterNameEventV1 {
                    subdomain_name,
                    domain_name,
                    expiration_time_secs,
                    expiration_secs,
                },
            )
        },
        _ => Err(DecodeCause::NotAnObject),
    }
}

} // verus!
