//! The board's serial protocol: one-byte actuator commands and the
//! comma-framed sample responses, decoded by the configured sensor layout.

use crate::settings::Sensors;
use vstd::prelude::*;

verus! {

/// Manual or automatic switch state of every actuator the firmware knows.
#[derive(Clone, Copy, Debug, PartialEq, Eq, Structural)]
pub struct ActivationState {
    pub irrigator: bool,
    pub heater: bool,
    pub lighting: bool,
    pub uv: bool,
    pub shading: bool,
}

impl ActivationState {
    /// Everything switched off.
    pub fn new() -> (r: ActivationState)
        ensures
            r == ActivationState::all(false),
    {
        ActivationState { irrigator: false, heater: false, lighting: false, uv: false, shading: false }
    }

    pub open spec fn all(on: bool) -> ActivationState {
        ActivationState { irrigator: on, heater: on, lighting: on, uv: on, shading: on }
    }
}

/// A partial state: the flags it gives replace those of a state, the
/// others keep their value.
#[derive(Clone, Copy, Debug, PartialEq, Eq, Structural)]
pub struct ActivationPatch {
    pub irrigator: Option<bool>,
    pub heater: Option<bool>,
    pub lighting: Option<bool>,
    pub uv: Option<bool>,
    pub shading: Option<bool>,
}

pub open spec fn patched(old: bool, p: Option<bool>) -> bool {
    match p {
        Some(v) => v,
        None => old,
    }
}

/// The state `s` with the flags that `p` gives replaced.
pub open spec fn merge(s: ActivationState, p: ActivationPatch) -> ActivationState {
    ActivationState {
        irrigator: patched(s.irrigator, p.irrigator),
        heater: patched(s.heater, p.heater),
        lighting: patched(s.lighting, p.lighting),
        uv: patched(s.uv, p.uv),
        shading: patched(s.shading, p.shading),
    }
}

fn patch_flag(old: bool, p: Option<bool>) -> (r: bool)
    ensures
        r == patched(old, p),
{
    match p {
        Some(v) => v,
        None => old,
    }
}

impl ActivationState {
    /// Replaces the flags that `p` gives.
    pub fn apply(&mut self, p: &ActivationPatch)
        ensures
            *final(self) == merge(*old(self), *p),
    {
        self.irrigator = patch_flag(self.irrigator, p.irrigator);
        self.heater = patch_flag(self.heater, p.heater);
        self.lighting = patch_flag(self.lighting, p.lighting);
        self.uv = patch_flag(self.uv, p.uv);
        self.shading = patch_flag(self.shading, p.shading);
    }
}

/// Applying a patch is deterministic, and applying it again changes
/// nothing: the state, and so the command byte sent for it, stay the same.
pub proof fn lemma_patch_idempotent(s: ActivationState, p: ActivationPatch)
    ensures
        merge(merge(s, p), p) == merge(s, p),
        command_symbol(merge(merge(s, p), p)) == command_symbol(merge(s, p)),
{
}

pub open spec fn weight(on: bool, w: nat) -> nat {
    if on { w } else { 0 }
}

/// `1 + Σ weight · active` over the actuators, with the weights 16, 8, 4, 2, 1.
pub open spec fn command_value(s: ActivationState) -> nat {
    1 + weight(s.irrigator, 16) + weight(s.heater, 8) + weight(s.lighting, 4) + weight(
        s.uv,
        2,
    ) + weight(s.shading, 1)
}

/// ASCII byte of a base-33 digit: `0`–`9`, then `A`–`W`.
pub open spec fn base33_digit(d: nat) -> u8
    recommends
        d < 33,
{
    if d < 10 {
        (48 + d) as u8
    } else {
        (55 + d) as u8
    }
}

/// The one-byte command that drives the actuators to `s`.
pub open spec fn command_symbol(s: ActivationState) -> u8 {
    base33_digit(command_value(s))
}

/// Encodes a state as the single command byte sent to the board. The sum
/// of the weights is at most 32, so every state has a digit.
pub fn encode_command(s: &ActivationState) -> (r: u8)
    ensures
        r == command_symbol(*s),
        1 <= command_value(*s) <= 32,
{
    let mut sum: u8 = 1;
    if s.irrigator {
        sum = sum + 16;
    }
    if s.heater {
        sum = sum + 8;
    }
    if s.lighting {
        sum = sum + 4;
    }
    if s.uv {
        sum = sum + 2;
    }
    if s.shading {
        sum = sum + 1;
    }
    if sum < 10 {
        48 + sum
    } else {
        55 + sum
    }
}

/// Whether the byte the board echoed confirms the command byte sent. A
/// mismatch is worth a warning only: the command still counts as issued.
pub fn decode_ack(sent: u8, echoed: u8) -> (r: bool)
    ensures
        r == (sent == echoed),
{
    sent == echoed
}

// ---------------------------------------------------------------------------
// Sample responses
//
// A response is a run of ASCII decimal fields, each closed by a comma. What
// follows the last comma (nothing, a line end, padding) is not a field.

pub open spec fn comma() -> u8 {
    44
}

/// Positions of the field delimiters in `s`, in increasing order.
pub open spec fn delimiters(s: Seq<u8>) -> Seq<int>
    decreases s.len(),
{
    if s.len() == 0 {
        Seq::empty()
    } else if s.last() == comma() {
        delimiters(s.drop_last()).push(s.len() - 1)
    } else {
        delimiters(s.drop_last())
    }
}

/// Number of complete fields in a response.
pub open spec fn field_count(s: Seq<u8>) -> nat {
    delimiters(s).len()
}

/// The `k`-th field of a response, without its delimiter.
pub open spec fn field(s: Seq<u8>, k: int) -> Seq<u8> {
    let d = delimiters(s);
    let start = if k == 0 {
        0
    } else {
        d[k - 1] + 1
    };
    s.subrange(start, d[k])
}

pub open spec fn fields(s: Seq<u8>) -> Seq<Seq<u8>> {
    Seq::new(field_count(s), |k: int| field(s, k))
}

// ---------------------------------------------------------------------------
// Decimal values
//
// A field holds a 32-bit float in the textual form the standard library
// parses: an optional sign, then `inf`, `infinity` or `nan` in any case, or
// digits with at most one point and at least one digit, then an optional
// exponent `e` or `E` with an optional sign and at least one digit.

pub open spec fn is_digit(b: u8) -> bool {
    48 <= b <= 57
}

pub open spec fn is_sign(b: u8) -> bool {
    b == 43 || b == 45
}

pub open spec fn ascii_lower(b: u8) -> u8 {
    if 65 <= b <= 90 {
        (b + 32) as u8
    } else {
        b
    }
}

pub open spec fn all_digits(s: Seq<u8>) -> bool {
    forall|i: int| 0 <= i < s.len() ==> is_digit(#[trigger] s[i])
}

/// Length of the run of digits that starts `s`.
pub open spec fn digit_run(s: Seq<u8>) -> nat
    decreases s.len(),
{
    if s.len() == 0 || !is_digit(s[0]) {
        0
    } else {
        1 + digit_run(s.drop_first())
    }
}

/// `s` spells `w` (given in lower case), ignoring ASCII case.
pub open spec fn spells(s: Seq<u8>, w: Seq<u8>) -> bool {
    s.len() == w.len() && forall|i: int| 0 <= i < s.len() ==> ascii_lower(#[trigger] s[i]) == w[i]
}

pub open spec fn word_inf() -> Seq<u8> {
    seq![105u8, 110, 102]
}

pub open spec fn word_infinity() -> Seq<u8> {
    seq![105u8, 110, 102, 105, 110, 105, 116, 121]
}

pub open spec fn word_nan() -> Seq<u8> {
    seq![110u8, 97, 110]
}

pub open spec fn is_special(s: Seq<u8>) -> bool {
    spells(s, word_inf()) || spells(s, word_infinity()) || spells(s, word_nan())
}

/// An optional sign followed by at least one digit.
pub open spec fn is_signed_digits(s: Seq<u8>) -> bool {
    let u = if s.len() > 0 && is_sign(s[0]) {
        s.drop_first()
    } else {
        s
    };
    u.len() > 0 && all_digits(u)
}

pub open spec fn is_exponent_or_empty(s: Seq<u8>) -> bool {
    s.len() == 0 || (ascii_lower(s[0]) == 101 && is_signed_digits(s.drop_first()))
}

/// Digits with at most one point and at least one digit, then an optional exponent.
pub open spec fn is_number(s: Seq<u8>) -> bool {
    let a = digit_run(s);
    let rest = s.skip(a as int);
    if rest.len() > 0 && rest[0] == 46 {
        let b = digit_run(rest.drop_first());
        a + b > 0 && is_exponent_or_empty(rest.drop_first().skip(b as int))
    } else {
        a > 0 && is_exponent_or_empty(rest)
    }
}

pub open spec fn is_float_literal(s: Seq<u8>) -> bool {
    let u = if s.len() > 0 && is_sign(s[0]) {
        s.drop_first()
    } else {
        s
    };
    is_special(u) || is_number(u)
}

proof fn lemma_subrange_drop_first(s: Seq<u8>, from: int, to: int)
    requires
        0 <= from < to <= s.len(),
    ensures
        s.subrange(from, to).drop_first() == s.subrange(from + 1, to),
        s.subrange(from, to)[0] == s[from],
{
    assert(s.subrange(from, to).drop_first() =~= s.subrange(from + 1, to));
}

/// End of the run of digits that starts at `from`, looking no further than `to`.
fn digit_run_end(s: &[u8], from: usize, to: usize) -> (r: usize)
    requires
        from <= to <= s@.len(),
    ensures
        r == from + digit_run(s@.subrange(from as int, to as int)),
        from <= r <= to,
        all_digits(s@.subrange(from as int, r as int)),
        r < to ==> !is_digit(s@[r as int]),
{
    let mut i = from;
    while i < to && 48 <= s[i] && s[i] <= 57
        invariant
            from <= i <= to <= s@.len(),
            digit_run(s@.subrange(from as int, to as int)) == (i - from) + digit_run(
                s@.subrange(i as int, to as int),
            ),
            all_digits(s@.subrange(from as int, i as int)),
        decreases to - i,
    {
        proof {
            lemma_subrange_drop_first(s@, i as int, to as int);
            assert(s@.subrange(from as int, i as int + 1) =~= s@.subrange(from as int, i as int).push(
                s@[i as int],
            ));
        }
        i = i + 1;
    }
    proof {
        if i < to {
            lemma_subrange_drop_first(s@, i as int, to as int);
        }
    }
    i
}

/// Whether `s[from..to]` spells `w`, ignoring ASCII case.
fn spells_at(s: &[u8], from: usize, to: usize, w: &Vec<u8>) -> (r: bool)
    requires
        from <= to <= s@.len(),
    ensures
        r == spells(s@.subrange(from as int, to as int), w@),
{
    if to - from != w.len() {
        return false;
    }
    let mut i: usize = 0;
    while i < w.len()
        invariant
            from <= to <= s@.len(),
            to - from == w@.len(),
            0 <= i <= w@.len(),
            forall|k: int| 0 <= k < i ==> ascii_lower(s@[from + k]) == w@[k],
        decreases w@.len() - i,
    {
        let b = s[from + i];
        let lower = if 65 <= b && b <= 90 {
            b + 32
        } else {
            b
        };
        if lower != w[i] {
            assert(ascii_lower(s@.subrange(from as int, to as int)[i as int]) != w@[i as int]);
            return false;
        }
        i = i + 1;
    }
    assert forall|k: int| 0 <= k < to - from implies ascii_lower(
        #[trigger] s@.subrange(from as int, to as int)[k],
    ) == w@[k] by {
        assert(s@.subrange(from as int, to as int)[k] == s@[from + k]);
    }
    true
}

/// Whether `s[from..to]` is an optional sign followed by at least one digit.
fn signed_digits_at(s: &[u8], from: usize, to: usize) -> (r: bool)
    requires
        from <= to <= s@.len(),
    ensures
        r == is_signed_digits(s@.subrange(from as int, to as int)),
{
    let ghost t = s@.subrange(from as int, to as int);
    let mut start = from;
    if from < to && (s[from] == 43 || s[from] == 45) {
        proof {
            lemma_subrange_drop_first(s@, from as int, to as int);
        }
        start = from + 1;
    }
    let ghost u = s@.subrange(start as int, to as int);
    let end = digit_run_end(s, start, to);
    proof {
        if end == to {
            assert(s@.subrange(start as int, end as int) =~= u);
        } else {
            assert(u[end - start] == s@[end as int]);
            assert(!all_digits(u));
        }
    }
    start < to && end == to
}

/// Whether `s[from..to]` is empty or an exponent.
fn exponent_or_empty_at(s: &[u8], from: usize, to: usize) -> (r: bool)
    requires
        from <= to <= s@.len(),
    ensures
        r == is_exponent_or_empty(s@.subrange(from as int, to as int)),
{
    if from == to {
        return true;
    }
    proof {
        lemma_subrange_drop_first(s@, from as int, to as int);
    }
    (s[from] == 101 || s[from] == 69) && signed_digits_at(s, from + 1, to)
}

proof fn lemma_skip_subrange(s: Seq<u8>, from: int, mid: int, to: int)
    requires
        0 <= from <= mid <= to <= s.len(),
    ensures
        s.subrange(from, to).skip(mid - from) == s.subrange(mid, to),
{
    assert(s.subrange(from, to).skip(mid - from) =~= s.subrange(mid, to));
}

/// Whether `s[from..to]` is a decimal number as `is_number` describes it.
fn number_at(s: &[u8], from: usize, to: usize) -> (r: bool)
    requires
        from <= to <= s@.len(),
    ensures
        r == is_number(s@.subrange(from as int, to as int)),
{
    let a_end = digit_run_end(s, from, to);
    proof {
        lemma_skip_subrange(s@, from as int, a_end as int, to as int);
    }
    if a_end < to && s[a_end] == 46 {
        proof {
            lemma_subrange_drop_first(s@, a_end as int, to as int);
        }
        let b_end = digit_run_end(s, a_end + 1, to);
        proof {
            lemma_skip_subrange(s@, a_end + 1, b_end as int, to as int);
        }
        let digits = (a_end - from) + (b_end - (a_end + 1));
        digits > 0 && exponent_or_empty_at(s, b_end, to)
    } else {
        a_end > from && exponent_or_empty_at(s, a_end, to)
    }
}

/// Whether `s[from..to]` is a float literal as `is_float_literal` describes it.
fn float_literal_at(s: &[u8], from: usize, to: usize) -> (r: bool)
    requires
        from <= to <= s@.len(),
    ensures
        r == is_float_literal(s@.subrange(from as int, to as int)),
{
    let mut start = from;
    if from < to && (s[from] == 43 || s[from] == 45) {
        proof {
            lemma_subrange_drop_first(s@, from as int, to as int);
        }
        start = from + 1;
    }
    let inf: Vec<u8> = vec![105u8, 110, 102];
    let infinity: Vec<u8> = vec![105u8, 110, 102, 105, 110, 105, 116, 121];
    let nan: Vec<u8> = vec![110u8, 97, 110];
    proof {
        assert(inf@ =~= word_inf());
        assert(infinity@ =~= word_infinity());
        assert(nan@ =~= word_nan());
    }
    spells_at(s, start, to, &inf) || spells_at(s, start, to, &infinity) || spells_at(
        s,
        start,
        to,
        &nan,
    ) || number_at(s, start, to)
}

// ---------------------------------------------------------------------------
// Readings

/// One sample of every configured sensor. A value is the decimal text the
/// board sent, a valid float literal; a channel whose sensor is not
/// configured is `None`. `timestamp` is set by the store, never by decoding.
#[derive(Clone, Debug, PartialEq, Eq)]
pub struct Reading {
    pub timestamp: Option<String>,
    pub temperature: Option<Vec<u8>>,
    pub air_humidity: Option<Vec<u8>>,
    pub soil_humidity: Option<Vec<u8>>,
    pub luminosity: Option<Vec<u8>>,
    pub air_quality: Option<Vec<u8>>,
    pub ph: Option<Vec<u8>>,
}

/// The channels of a reading, as byte strings.
pub struct ReadingView {
    pub temperature: Option<Seq<u8>>,
    pub air_humidity: Option<Seq<u8>>,
    pub soil_humidity: Option<Seq<u8>>,
    pub luminosity: Option<Seq<u8>>,
    pub air_quality: Option<Seq<u8>>,
    pub ph: Option<Seq<u8>>,
}

pub open spec fn opt_bytes(o: Option<Vec<u8>>) -> Option<Seq<u8>> {
    match o {
        Some(v) => Some(v@),
        None => None,
    }
}

impl View for Reading {
    type V = ReadingView;

    open spec fn view(&self) -> ReadingView {
        ReadingView {
            temperature: opt_bytes(self.temperature),
            air_humidity: opt_bytes(self.air_humidity),
            soil_humidity: opt_bytes(self.soil_humidity),
            luminosity: opt_bytes(self.luminosity),
            air_quality: opt_bytes(self.air_quality),
            ph: opt_bytes(self.ph),
        }
    }
}

impl ReadingView {
    pub open spec fn empty() -> ReadingView {
        ReadingView {
            temperature: None,
            air_humidity: None,
            soil_humidity: None,
            luminosity: None,
            air_quality: None,
            ph: None,
        }
    }
}

impl Reading {
    /// A reading with every channel absent.
    pub fn new() -> (r: Reading)
        ensures
            r@ == ReadingView::empty(),
            r.timestamp is None,
    {
        Reading {
            timestamp: None,
            temperature: None,
            air_humidity: None,
            soil_humidity: None,
            luminosity: None,
            air_quality: None,
            ph: None,
        }
    }
}

/// Number of fields a sensor reports: two for the combined sensor, else one.
pub open spec fn sensor_width(s: Sensors) -> nat {
    if s is DHT11 {
        2
    } else {
        1
    }
}

/// Number of fields a configuration reports.
pub open spec fn layout_width(cfg: Seq<Sensors>) -> nat
    decreases cfg.len(),
{
    if cfg.len() == 0 {
        0
    } else {
        layout_width(cfg.drop_last()) + sensor_width(cfg.last())
    }
}

/// Stores the fields at `at` in the channel(s) of sensor `s`.
pub open spec fn store(r: ReadingView, s: Sensors, f: Seq<Seq<u8>>, at: int) -> ReadingView {
    match s {
        Sensors::DHT11 => ReadingView {
            temperature: Some(f[at]),
            air_humidity: Some(f[at + 1]),
            ..r
        },
        Sensors::Thermometer => ReadingView { temperature: Some(f[at]), ..r },
        Sensors::Hygrometer => ReadingView { air_humidity: Some(f[at]), ..r },
        Sensors::SoilHygrometer => ReadingView { soil_humidity: Some(f[at]), ..r },
        Sensors::Luminometer => ReadingView { luminosity: Some(f[at]), ..r },
        Sensors::Co2 => ReadingView { air_quality: Some(f[at]), ..r },
        Sensors::PH => ReadingView { ph: Some(f[at]), ..r },
    }
}

/// The reading that fields `f` give when consumed left to right in the
/// order of `cfg`.
pub open spec fn layout_reading(cfg: Seq<Sensors>, f: Seq<Seq<u8>>) -> ReadingView
    decreases cfg.len(),
{
    if cfg.len() == 0 {
        ReadingView::empty()
    } else {
        store(
            layout_reading(cfg.drop_last(), f),
            cfg.last(),
            f,
            layout_width(cfg.drop_last()) as int,
        )
    }
}

/// Why a sample response could not be decoded.
#[derive(Clone, Debug, PartialEq, Eq)]
pub enum ProtocolError {
    /// The response holds `received` fields, not as many as the sensors report.
    FieldCountMismatch { received: usize },
    /// The first field that is not a float literal.
    MalformedValue { token: Vec<u8> },
    /// The response is not text: its bytes are not valid UTF-8.
    NotText,
}

/// Index of the first field that is not a float literal, if any.
pub open spec fn first_malformed(f: Seq<Seq<u8>>, k: int) -> bool {
    &&& 0 <= k < f.len()
    &&& !is_float_literal(f[k])
    &&& forall|j: int| 0 <= j < k ==> is_float_literal(#[trigger] f[j])
}

pub open spec fn all_well_formed(f: Seq<Seq<u8>>) -> bool {
    forall|j: int| 0 <= j < f.len() ==> is_float_literal(#[trigger] f[j])
}

/// What decoding `raw` under configuration `cfg` yields.
pub open spec fn decode_spec(raw: Seq<u8>, cfg: Seq<Sensors>, r: Result<Reading, ProtocolError>) -> bool {
    let f = fields(raw);
    if field_count(raw) != layout_width(cfg) {
        r == Err::<Reading, ProtocolError>(
            ProtocolError::FieldCountMismatch { received: field_count(raw) as usize },
        )
    } else if !all_well_formed(f) {
        match r {
            Err(ProtocolError::MalformedValue { token }) => exists|k: int|
                #[trigger] first_malformed(f, k) && token@ == f[k],
            _ => false,
        }
    } else {
        r matches Ok(reading) && reading@ == layout_reading(cfg, f) && reading.timestamp is None
    }
}

proof fn lemma_width_prefix(cfg: Seq<Sensors>, i: int, j: int)
    requires
        0 <= i <= j <= cfg.len(),
    ensures
        layout_width(cfg.take(i)) <= layout_width(cfg.take(j)),
    decreases j - i,
{
    if i < j {
        lemma_width_prefix(cfg, i, j - 1);
        assert(cfg.take(j).drop_last() =~= cfg.take(j - 1));
    }
}

fn copy_range(s: &[u8], from: usize, to: usize) -> (r: Vec<u8>)
    requires
        from <= to <= s@.len(),
    ensures
        r@ == s@.subrange(from as int, to as int),
{
    let mut r: Vec<u8> = Vec::new();
    let mut i = from;
    while i < to
        invariant
            from <= i <= to <= s@.len(),
            r@ == s@.subrange(from as int, i as int),
        decreases to - i,
    {
        r.push(s[i]);
        i = i + 1;
        assert(r@ =~= s@.subrange(from as int, i as int));
    }
    r
}

/// Positions of the delimiters in `raw`.
fn delimiter_positions(raw: &[u8]) -> (ends: Vec<usize>)
    ensures
        ends@.len() == field_count(raw@),
        forall|k: int| 0 <= k < ends@.len() ==> #[trigger] ends@[k] as int == delimiters(raw@)[k],
        forall|k: int| 0 <= k < ends@.len() ==> #[trigger] ends@[k] < raw@.len(),
        forall|a: int, b: int| 0 <= a < b < ends@.len() ==> ends@[a] < ends@[b],
{
    let mut ends: Vec<usize> = Vec::new();
    let mut i: usize = 0;
    while i < raw.len()
        invariant
            0 <= i <= raw@.len(),
            ends@.len() == delimiters(raw@.take(i as int)).len(),
            forall|k: int|
                0 <= k < ends@.len() ==> #[trigger] ends@[k] as int == delimiters(
                    raw@.take(i as int),
                )[k],
            forall|k: int| 0 <= k < ends@.len() ==> #[trigger] ends@[k] < i,
            forall|a: int, b: int| 0 <= a < b < ends@.len() ==> ends@[a] < ends@[b],
        decreases raw@.len() - i,
    {
        assert(raw@.take(i as int + 1).drop_last() =~= raw@.take(i as int));
        if raw[i] == 44 {
            ends.push(i);
        }
        i = i + 1;
    }
    assert(raw@.take(i as int) =~= raw@);
    ends
}

/// Whether the bytes `b` are valid UTF-8.
pub uninterp spec fn valid_utf8(b: Seq<u8>) -> bool;

/// Relies on `std::str::from_utf8`: it succeeds exactly on valid UTF-8,
/// and ASCII bytes are always valid UTF-8.
#[verifier::external_body]
fn is_utf8(b: &[u8]) -> (r: bool)
    ensures
        r == valid_utf8(b@),
        (forall|i: int| 0 <= i < b@.len() ==> #[trigger] b@[i] < 128) ==> r,
{
    std::str::from_utf8(b).is_ok()
}

/// What decoding `raw` under `cfg` yields, given whether `raw` is text:
/// bytes that are not text are rejected before their fields are counted.
pub open spec fn decode_result(
    raw: Seq<u8>,
    is_text: bool,
    cfg: Seq<Sensors>,
    r: Result<Reading, ProtocolError>,
) -> bool {
    if !is_text {
        r == Err::<Reading, ProtocolError>(ProtocolError::NotText)
    } else {
        decode_spec(raw, cfg, r)
    }
}

/// Decodes a sample response, given the sensors in the order the firmware
/// reports them.
pub fn decode_reading(raw: &[u8], sensors: &Vec<Sensors>) -> (r: Result<Reading, ProtocolError>)
    ensures
        decode_result(raw@, valid_utf8(raw@), sensors@, r),
{
    let text = is_utf8(raw);
    decode_text(raw, text, sensors)
}

/// Decodes a sample response whose bytes are text exactly when `is_text`
/// holds.
pub fn decode_text(raw: &[u8], is_text: bool, sensors: &Vec<Sensors>) -> (r: Result<
    Reading,
    ProtocolError,
>)
    ensures
        decode_result(raw@, is_text, sensors@, r),
{
    if !is_text {
        return Err(ProtocolError::NotText);
    }
    decode_fields(raw, sensors)
}

/// Splits a text response into its fields and reads them under the
/// configured sensors.
fn decode_fields(raw: &[u8], sensors: &Vec<Sensors>) -> (r: Result<Reading, ProtocolError>)
    ensures
        decode_spec(raw@, sensors@, r),
{
    let len = raw.len();
    let ends = delimiter_positions(raw);
    let n = ends.len();
    let ghost f = fields(raw@);

    // Width of the configuration, stopping as soon as it exceeds `n`.
    let mut width: usize = 0;
    let mut i: usize = 0;
    while i < sensors.len()
        invariant
            0 <= i <= sensors@.len(),
            width == layout_width(sensors@.take(i as int)),
            width <= n,
            n == field_count(raw@),
        decreases sensors@.len() - i,
    {
        assert(sensors@.take(i as int + 1).drop_last() =~= sensors@.take(i as int));
        assert(sensors@.take(i as int + 1).last() == sensors@[i as int]);
        let w: usize = if matches!(sensors[i], Sensors::DHT11) {
            2
        } else {
            1
        };
        assert(w == sensor_width(sensors@[i as int]));
        assert(layout_width(sensors@.take(i as int + 1)) == width + w);
        if w > n - width {
            proof {
                lemma_width_prefix(sensors@, i as int + 1, sensors@.len() as int);
                assert(sensors@.take(sensors@.len() as int) =~= sensors@);
            }
            return Err(ProtocolError::FieldCountMismatch { received: n });
        }
        width = width + w;
        i = i + 1;
    }
    assert(sensors@.take(i as int) =~= sensors@);
    if width != n {
        return Err(ProtocolError::FieldCountMismatch { received: n });
    }

    // Every field must be a float literal; report the first that is not.
    let mut k: usize = 0;
    while k < n
        invariant
            0 <= k <= n == ends@.len() == f.len(),
            n == layout_width(sensors@),
            len == raw@.len(),
            f == fields(raw@),
            forall|j: int| 0 <= j < ends@.len() ==> #[trigger] ends@[j] as int == delimiters(raw@)[j],
            forall|j: int| 0 <= j < ends@.len() ==> #[trigger] ends@[j] < raw@.len(),
            forall|a: int, b: int| 0 <= a < b < ends@.len() ==> ends@[a] < ends@[b],
            forall|j: int| 0 <= j < k ==> is_float_literal(#[trigger] f[j]),
        decreases n - k,
    {
        let start = if k == 0 {
            0
        } else {
            ends[k - 1] + 1
        };
        let end = ends[k];
        assert(f[k as int] == raw@.subrange(start as int, end as int));
        if !float_literal_at(raw, start, end) {
            let token = copy_range(raw, start, end);
            let r = Err(ProtocolError::MalformedValue { token });
            assert(first_malformed(f, k as int));
            return r;
        }
        k = k + 1;
    }

    // Consume the fields in configuration order.
    let mut reading = Reading::new();
    let mut at: usize = 0;
    let mut i: usize = 0;
    while i < sensors.len()
        invariant
            0 <= i <= sensors@.len(),
            n == ends@.len() == f.len() == layout_width(sensors@),
            len == raw@.len(),
            all_well_formed(f),
            f == fields(raw@),
            forall|j: int| 0 <= j < ends@.len() ==> #[trigger] ends@[j] as int == delimiters(raw@)[j],
            forall|j: int| 0 <= j < ends@.len() ==> #[trigger] ends@[j] < raw@.len(),
            forall|a: int, b: int| 0 <= a < b < ends@.len() ==> ends@[a] < ends@[b],
            at == layout_width(sensors@.take(i as int)),
            reading@ == layout_reading(sensors@.take(i as int), f),
            reading.timestamp is None,
        decreases sensors@.len() - i,
    {
        let ghost t = sensors@.take(i as int + 1);
        assert(t.drop_last() =~= sensors@.take(i as int));
        assert(t.last() == sensors@[i as int]);
        proof {
            lemma_width_prefix(sensors@, i as int + 1, sensors@.len() as int);
            assert(sensors@.take(sensors@.len() as int) =~= sensors@);
        }
        let start = if at == 0 {
            0
        } else {
            ends[at - 1] + 1
        };
        let first = copy_range(raw, start, ends[at]);
        assert(first@ == f[at as int]);
        match sensors[i] {
            Sensors::DHT11 => {
                let second = copy_range(raw, ends[at] + 1, ends[at + 1]);
                assert(second@ == f[at + 1]);
                reading.temperature = Some(first);
                reading.air_humidity = Some(second);
                at = at + 2;
            },
            Sensors::Thermometer => {
                reading.temperature = Some(first);
                at = at + 1;
            },
            Sensors::Hygrometer => {
                reading.air_humidity = Some(first);
                at = at + 1;
            },
            Sensors::SoilHygrometer => {
                reading.soil_humidity = Some(first);
                at = at + 1;
            },
            Sensors::Luminometer => {
                reading.luminosity = Some(first);
                at = at + 1;
            },
            Sensors::Co2 => {
                reading.air_quality = Some(first);
                at = at + 1;
            },
            Sensors::PH => {
                reading.ph = Some(first);
                at = at + 1;
            },
        }
        i = i + 1;
    }
    assert(sensors@.take(i as int) =~= sensors@);
    Ok(reading)
}

} // verus!
