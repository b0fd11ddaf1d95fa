//! The persisted form of a schedule: a flat map from field names to decimal
//! strings, and the keys under which the store keeps records.
use vstd::prelude::*;

use crate::schedule::{GuildSchedule, GuildScheduleView};

verus! {

/// Why a stored record could not be read or written.
#[derive(Clone, Copy, Debug, PartialEq, Eq, Structural)]
pub enum StoreError {
    /// A required field is absent.
    MissingField,
    /// A field does not hold a decimal number that fits in 64 bits.
    InvalidField,
    /// The store could not be reached.
    Unavailable,
}

/// The character of a decimal digit.
pub open spec fn digit_char(d: nat) -> char {
    if d == 0 { '0' }
    else if d == 1 { '1' }
    else if d == 2 { '2' }
    else if d == 3 { '3' }
    else if d == 4 { '4' }
    else if d == 5 { '5' }
    else if d == 6 { '6' }
    else if d == 7 { '7' }
    else if d == 8 { '8' }
    else { '9' }
}

/// The digit that a character stands for, if it is a decimal digit.
pub open spec fn digit_value(c: char) -> Option<nat> {
    if '0' <= c && c <= '9' {
        Some((c as nat - '0' as nat) as nat)
    } else {
        None
    }
}

/// The decimal text of `n`, without leading zeros.
pub open spec fn decimal_of(n: nat) -> Seq<char>
    decreases n,
{
    if n < 10 {
        seq![digit_char(n)]
    } else {
        decimal_of(n / 10).push(digit_char(n % 10))
    }
}

/// Whether `s` is a non-empty run of decimal digits.
pub open spec fn is_decimal(s: Seq<char>) -> bool {
    s.len() > 0 && forall|i: int| 0 <= i < s.len() ==> (#[trigger] digit_value(s[i])).is_some()
}

/// The number that a run of decimal digits stands for.
pub open spec fn decimal_value(s: Seq<char>) -> nat
    decreases s.len(),
{
    if s.len() == 0 {
        0
    } else {
        decimal_value(s.drop_last()) * 10 + match digit_value(s.last()) {
            Some(d) => d,
            None => 0,
        }
    }
}

/// What a decimal field parses to: its number, when it is a run of digits
/// whose number fits in 64 bits.
pub open spec fn parse_spec(s: Seq<char>) -> Option<u64> {
    if is_decimal(s) && decimal_value(s) <= u64::MAX {
        Some(decimal_value(s) as u64)
    } else {
        None
    }
}

proof fn lemma_digit(d: nat)
    requires
        d < 10,
    ensures
        digit_value(digit_char(d)) == Some(d),
{
}

/// Decimal text parses back to its number.
pub proof fn lemma_decimal_round_trip(n: nat)
    ensures
        is_decimal(decimal_of(n)),
        decimal_value(decimal_of(n)) == n,
    decreases n,
{
    if n < 10 {
        lemma_digit(n);
        assert(decimal_of(n).drop_last() =~= Seq::<char>::empty());
        assert(decimal_value(decimal_of(n).drop_last()) == 0);
    } else {
        lemma_decimal_round_trip(n / 10);
        lemma_digit(n % 10);
        vstd::arithmetic::div_mod::lemma_fundamental_div_mod(n as int, 10);
        let s = decimal_of(n);
        assert(s.last() == digit_char(n % 10));
        assert(s.drop_last() =~= decimal_of(n / 10));
        assert((n / 10) * 10 == 10 * (n / 10)) by (nonlinear_arith);
        assert(decimal_value(s) == decimal_value(s.drop_last()) * 10 + n % 10);
        assert(s.drop_last() =~= decimal_of(n / 10));
        assert forall|i: int| 0 <= i < s.len() implies (#[trigger] digit_value(s[i])).is_some() by {
            if i < s.len() - 1 {
                assert(s[i] == decimal_of(n / 10)[i]);
            }
        }
    }
}

proof fn lemma_prefix_value_grows(s: Seq<char>, i: int, j: int)
    requires
        0 <= i <= j <= s.len(),
    ensures
        decimal_value(s.subrange(0, i)) <= decimal_value(s.subrange(0, j)),
    decreases j - i,
{
    if i < j {
        lemma_prefix_value_grows(s, i, j - 1);
        assert(s.subrange(0, j).drop_last() =~= s.subrange(0, j - 1));
    }
}

fn digit_text(d: u64) -> (r: &'static str)
    requires
        d < 10,
    ensures
        r@ == seq![digit_char(d as nat)],
{
    proof {
        reveal_strlit("0");
        reveal_strlit("1");
        reveal_strlit("2");
        reveal_strlit("3");
        reveal_strlit("4");
        reveal_strlit("5");
        reveal_strlit("6");
        reveal_strlit("7");
        reveal_strlit("8");
        reveal_strlit("9");
    }
    if d == 0 { "0" }
    else if d == 1 { "1" }
    else if d == 2 { "2" }
    else if d == 3 { "3" }
    else if d == 4 { "4" }
    else if d == 5 { "5" }
    else if d == 6 { "6" }
    else if d == 7 { "7" }
    else if d == 8 { "8" }
    else { "9" }
}

fn append_decimal(out: &mut String, n: u64)
    ensures
        final(out)@ == old(out)@ + decimal_of(n as nat),
    decreases n,
{
    if n >= 10 {
        append_decimal(out, n / 10);
    }
    out.append(digit_text(n % 10));
    proof {
        if n >= 10 {
            assert(decimal_of(n as nat) == decimal_of((n / 10) as nat).push(digit_char((n % 10) as nat)));
        }
        assert(final(out)@ =~= old(out)@ + decimal_of(n as nat));
    }
}

/// The decimal text of `n`.
pub fn decimal_text(n: u64) -> (r: String)
    ensures
        r@ == decimal_of(n as nat),
{
    let mut out = String::new();
    append_decimal(&mut out, n);
    assert(out@ =~= decimal_of(n as nat));
    out
}

/// Parses a decimal field: a non-empty run of digits whose number fits in
/// 64 bits.
pub fn parse_decimal(s: &str) -> (r: Option<u64>)
    ensures
        r == parse_spec(s@),
{
    let n = s.unicode_len();
    if n == 0 {
        return None;
    }
    let mut value: u64 = 0;
    let mut i: usize = 0;
    while i < n
        invariant
            n == s@.len(),
            n > 0,
            i <= n,
            value == decimal_value(s@.subrange(0, i as int)),
            forall|j: int| 0 <= j < i ==> (#[trigger] digit_value(s@[j])).is_some(),
        decreases n - i,
    {
        let c = s.get_char(i);
        if c < '0' || c > '9' {
            assert(!is_decimal(s@));
            return None;
        }
        let d = (c as u32 - '0' as u32) as u64;
        assert(s@.subrange(0, i + 1).drop_last() =~= s@.subrange(0, i as int));
        assert(digit_value(s@[i as int]) == Some(d as nat));
        if value > (u64::MAX - d) / 10 {
            proof {
                assert(value * 10 + d > u64::MAX) by (nonlinear_arith)
                    requires
                        value > (u64::MAX - d) / 10,
                        d < 10,
                ;
                lemma_prefix_value_grows(s@, i + 1, n as int);
                assert(s@.subrange(0, n as int) =~= s@);
            }
            return None;
        }
        assert(value * 10 + d <= u64::MAX) by (nonlinear_arith)
            requires
                value <= (u64::MAX - d) / 10,
                d < 10,
        ;
        value = value * 10 + d;
        i = i + 1;
    }
    assert(s@.subrange(0, n as int) =~= s@);
    Some(value)
}

/// The names of a record's fields, in the order they are written.
pub open spec fn field_names() -> Seq<Seq<char>> {
    seq!["guild_id"@, "channel_id"@, "interval"@, "last_run"@, "start_at"@, "message_limit"@]
}

/// The flat map written for a record.
pub open spec fn fields_spec(g: GuildScheduleView) -> Seq<(Seq<char>, Seq<char>)> {
    seq![
        ("guild_id"@, decimal_of(g.guild_id as nat)),
        ("channel_id"@, decimal_of(g.channel_id as nat)),
        ("interval"@, decimal_of(g.interval as nat)),
        ("last_run"@, decimal_of(g.last_run as nat)),
        ("start_at"@, decimal_of(g.start_at as nat)),
        ("message_limit"@, decimal_of(g.message_limit as nat)),
    ]
}

/// The value of the first field of `fields` named `name`.
pub open spec fn field_value(fields: Seq<(Seq<char>, Seq<char>)>, name: Seq<char>) -> Option<Seq<char>>
    decreases fields.len(),
{
    if fields.len() == 0 {
        None
    } else if fields[0].0 == name {
        Some(fields[0].1)
    } else {
        field_value(fields.drop_first(), name)
    }
}

/// A field read from a flat map: absent, not a number, or its number.
pub open spec fn read_field_spec(fields: Seq<(Seq<char>, Seq<char>)>, name: Seq<char>) -> Result<u64, StoreError> {
    match field_value(fields, name) {
        None => Err(StoreError::MissingField),
        Some(v) => match parse_spec(v) {
            None => Err(StoreError::InvalidField),
            Some(n) => Ok(n),
        },
    }
}

/// The record read from a flat map: the first field that fails, in the
/// order of [`field_names`], fails the read.
pub open spec fn record_from_spec(fields: Seq<(Seq<char>, Seq<char>)>) -> Result<GuildScheduleView, StoreError> {
    let names = field_names();
    match (
        read_field_spec(fields, names[0]),
        read_field_spec(fields, names[1]),
        read_field_spec(fields, names[2]),
        read_field_spec(fields, names[3]),
        read_field_spec(fields, names[4]),
        read_field_spec(fields, names[5]),
    ) {
        (Err(e), _, _, _, _, _) => Err(e),
        (_, Err(e), _, _, _, _) => Err(e),
        (_, _, Err(e), _, _, _) => Err(e),
        (_, _, _, Err(e), _, _) => Err(e),
        (_, _, _, _, Err(e), _) => Err(e),
        (_, _, _, _, _, Err(e)) => Err(e),
        (Ok(guild_id), Ok(channel_id), Ok(interval), Ok(last_run), Ok(start_at), Ok(message_limit)) => Ok(
            GuildScheduleView { guild_id, channel_id, interval, start_at, last_run, message_limit },
        ),
    }
}

/// The views of a flat map.
pub open spec fn fields_view(v: Seq<(String, String)>) -> Seq<(Seq<char>, Seq<char>)> {
    v.map_values(|p: (String, String)| (p.0@, p.1@))
}

fn find_field<'a>(fields: &'a Vec<(String, String)>, name: &str) -> (r: Option<&'a String>)
    ensures
        match r {
            Some(v) => field_value(fields_view(fields@), name@) == Some(v@),
            None => field_value(fields_view(fields@), name@).is_none(),
        },
{
    let ghost fs = fields_view(fields@);
    let mut i: usize = 0;
    assert(fs.subrange(0, fs.len() as int) =~= fs);
    while i < fields.len()
        invariant
            i <= fields.len(),
            fs == fields_view(fields@),
            field_value(fs, name@) == field_value(fs.subrange(i as int, fs.len() as int), name@),
        decreases fields.len() - i,
    {
        let ghost rest = fs.subrange(i as int, fs.len() as int);
        assert(rest.drop_first() =~= fs.subrange(i + 1, fs.len() as int));
        if crate::text::same_text(fields[i].0.as_str(), name) {
            assert(rest[0] == fs[i as int]);
            return Some(&fields[i].1);
        }
        i = i + 1;
    }
    None
}

fn read_field(fields: &Vec<(String, String)>, name: &str) -> (r: Result<u64, StoreError>)
    ensures
        r == read_field_spec(fields_view(fields@), name@),
{
    match find_field(fields, name) {
        None => Err(StoreError::MissingField),
        Some(v) => match parse_decimal(v.as_str()) {
            None => Err(StoreError::InvalidField),
            Some(n) => Ok(n),
        },
    }
}

impl GuildSchedule {
    /// The flat map written for this record: each field's name and decimal
    /// value.
    pub fn to_fields(&self) -> (r: Vec<(String, String)>)
        ensures
            fields_view(r@) == fields_spec(self@),
    {
        let mut out: Vec<(String, String)> = Vec::new();
        out.push((String::from_str("guild_id"), decimal_text(self.guild_id())));
        out.push((String::from_str("channel_id"), decimal_text(self.channel_id())));
        out.push((String::from_str("interval"), decimal_text(self.interval())));
        out.push((String::from_str("last_run"), decimal_text(self.last_run())));
        out.push((String::from_str("start_at"), decimal_text(self.start_at())));
        out.push((String::from_str("message_limit"), decimal_text(self.message_limit())));
        assert(fields_view(out@) =~= fields_spec(self@));
        out
    }

    /// Reads a record from a flat map; a field that is absent, or does not
    /// hold a 64-bit decimal number, is a store error.
    pub fn from_fields(fields: &Vec<(String, String)>) -> (r: Result<GuildSchedule, StoreError>)
        ensures
            match record_from_spec(fields_view(fields@)) {
                Ok(g) => r is Ok && r->Ok_0@ == g,
                Err(e) => r == Err::<GuildSchedule, StoreError>(e),
            },
    {
        let guild_id = match read_field(fields, "guild_id") {
            Ok(n) => n,
            Err(e) => return Err(e),
        };
        let channel_id = match read_field(fields, "channel_id") {
            Ok(n) => n,
            Err(e) => return Err(e),
        };
        let interval = match read_field(fields, "interval") {
            Ok(n) => n,
            Err(e) => return Err(e),
        };
        let last_run = match read_field(fields, "last_run") {
            Ok(n) => n,
            Err(e) => return Err(e),
        };
        let start_at = match read_field(fields, "start_at") {
            Ok(n) => n,
            Err(e) => return Err(e),
        };
        let message_limit = match read_field(fields, "message_limit") {
            Ok(n) => n,
            Err(e) => return Err(e),
        };
        Ok(GuildSchedule::new(guild_id, channel_id, interval, last_run, start_at, message_limit))
    }
}

/// A record read back from the flat map written for it is the same record.
pub proof fn lemma_record_round_trip(g: GuildScheduleView)
    ensures
        record_from_spec(fields_spec(g)) == Ok::<GuildScheduleView, StoreError>(g),
{
    let fs = fields_spec(g);
    lemma_decimal_round_trip(g.guild_id as nat);
    lemma_decimal_round_trip(g.channel_id as nat);
    lemma_decimal_round_trip(g.interval as nat);
    lemma_decimal_round_trip(g.last_run as nat);
    lemma_decimal_round_trip(g.start_at as nat);
    lemma_decimal_round_trip(g.message_limit as nat);
    reveal_strlit("guild_id");
    reveal_strlit("channel_id");
    reveal_strlit("interval");
    reveal_strlit("last_run");
    reveal_strlit("start_at");
    reveal_strlit("message_limit");
    let names = field_names();
    assert forall|k: int| 0 <= k < 6 implies (#[trigger] fs[k]).0 == names[k] && names[k].len() > 0 by {}
    assert forall|k: int| 0 <= k < 6 implies field_value(fs, #[trigger] names[k]) == Some(fs[k].1) by {
        lemma_field_at(fs, k, names[k]);
    }
}

proof fn lemma_field_at(fs: Seq<(Seq<char>, Seq<char>)>, k: int, name: Seq<char>)
    requires
        0 <= k < fs.len(),
        fs[k].0 == name,
        name.len() > 0,
        forall|j: int| 0 <= j < k ==> (#[trigger] fs[j]).0.len() > 0 && fs[j].0[0] != name[0],
    ensures
        field_value(fs, name) == Some(fs[k].1),
    decreases k,
{
    if k > 0 {
        assert(fs[0].0[0] != name[0]);
        let rest = fs.drop_first();
        assert forall|j: int| 0 <= j < k - 1 implies (#[trigger] rest[j]).0.len() > 0 && rest[j].0[0] != name[0] by {
            assert(rest[j] == fs[j + 1]);
        }
        lemma_field_at(rest, k - 1, name);
    }
}

/// A store key: the prefix, then `:` and `name`.
pub open spec fn key_spec(prefix: Seq<char>, name: Seq<char>) -> Seq<char> {
    prefix + ":"@ + name
}

/// The store key of `name` under `prefix`.
pub fn database_key(prefix: &str, name: &str) -> (r: String)
    ensures
        r@ == key_spec(prefix@, name@),
{
    let mut key = String::from_str(prefix);
    key.append(":");
    key.append(name);
    key
}

/// The key of the set of active tenant ids.
pub fn active_schedules_key(prefix: &str) -> (r: String)
    ensures
        r@ == key_spec(prefix@, "active_schedules"@),
{
    database_key(prefix, "active_schedules")
}

/// The key of a tenant's schedule record.
pub fn schedule_key(prefix: &str, guild_id: u64) -> (r: String)
    ensures
        r@ == key_spec(key_spec(prefix@, "active_schedule"@), decimal_of(guild_id as nat)),
{
    let namespaced = database_key(prefix, "active_schedule");
    let id = decimal_text(guild_id);
    database_key(namespaced.as_str(), id.as_str())
}

/// Per-guild settings as stored.
#[derive(Clone, Copy, Debug)]
pub struct GuildSettings {
    /// The guild id.
    pub guild_id: u64,
    /// The channel the bot posts messages to.
    pub notification_channel: u64,
}

impl GuildSettings {
    /// The flat map written for these settings.
    pub fn to_fields(&self) -> (r: Vec<(String, String)>)
        ensures
            fields_view(r@) == seq![
                ("guild_id"@, decimal_of(self.guild_id as nat)),
                ("notification_channel"@, decimal_of(self.notification_channel as nat)),
            ],
    {
        let mut out: Vec<(String, String)> = Vec::new();
        out.push((String::from_str("guild_id"), decimal_text(self.guild_id)));
        out.push((String::from_str("notification_channel"), decimal_text(self.notification_channel)));
        assert(fields_view(out@) =~= seq![
            ("guild_id"@, decimal_of(self.guild_id as nat)),
            ("notification_channel"@, decimal_of(self.notification_channel as nat)),
        ]);
        out
    }
}

} // verus!
