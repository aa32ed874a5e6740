//! The SimpleFIN bridge protocol around an import: the accounts request,
//! the answers to a request or a token claim, the fetch window of a sync,
//! the remote-account cache, and the sync-state columns.
use vstd::prelude::*;
use chrono::TimeZone;
use crate::storage::spec_epoch_to_parts;
use crate::text::{
    zero_padded, decimal, lit, append_chars, to_chars, from_chars, str_eq, trim, trim_chars, u64_decimal,
};
use crate::simplefin::{
    opt_int, plausible_ts, spec_window_start, spec_parse_ymd, near_midnight_of, window_start, spec_sync_due, sync_due,
    is_http_url,
};

verus! {

/// A signed integer in decimal, as `{}` formats it.
pub open spec fn signed_decimal(n: int) -> Seq<char> {
    if n < 0 {
        seq!['-'] + decimal((-n) as nat)
    } else {
        decimal(n as nat)
    }
}

/// Decimal rendering of a signed integer.
pub fn i64_decimal(n: i64) -> (r: Vec<char>)
    ensures
        r@ == signed_decimal(n as int),
{
    if n < 0 {
        let m: u64 = ((-(n + 1)) as u64) + 1;
        let mut r: Vec<char> = Vec::new();
        r.push('-');
        append_chars(&mut r, u64_decimal(m).as_slice());
        r
    } else {
        u64_decimal(n as u64)
    }
}

fn text_of(v: &Vec<char>) -> (s: String)
    ensures
        s@ == v@,
{
    from_chars(v.as_slice())
}

pub open spec fn pairs_view(v: Seq<(String, String)>) -> Seq<(Seq<char>, Seq<char>)> {
    v.map_values(|p: (String, String)| (p.0@, p.1@))
}

/// The query of an accounts request: the window start and end (unix
/// seconds) when given, and `pending=1` when pending transactions are asked
/// for (regular syncs; backfills leave the pending cache alone).
pub open spec fn accounts_query_spec(start: Option<i64>, end: Option<i64>, include_pending: bool) -> Seq<
    (Seq<char>, Seq<char>),
> {
    (match start {
        Some(s) => seq![("start-date"@, signed_decimal(s as int))],
        None => seq![],
    }) + (match end {
        Some(e) => seq![("end-date"@, signed_decimal(e as int))],
        None => seq![],
    }) + (if include_pending {
        seq![("pending"@, "1"@)]
    } else {
        seq![]
    })
}

fn push_pair(v: &mut Vec<(String, String)>, k: &str, val: String)
    ensures
        pairs_view(final(v)@) == pairs_view(old(v)@).push((k@, val@)),
{
    let ghost before = v@;
    let kk = String::from_str(k);
    let ghost p = (kk, val);
    v.push((kk, val));
    assert(pairs_view(v@) =~= pairs_view(before).push((k@, val@)));
}

/// The query pairs of an accounts request, in order.
pub fn accounts_query(start: Option<i64>, end: Option<i64>, include_pending: bool) -> (q: Vec<
    (String, String),
>)
    ensures
        pairs_view(q@) == accounts_query_spec(start, end, include_pending),
{
    let mut q: Vec<(String, String)> = Vec::new();
    if let Some(s) = start {
        push_pair(&mut q, "start-date", text_of(&i64_decimal(s)));
    }
    let ghost q1 = pairs_view(q@);
    if let Some(e) = end {
        push_pair(&mut q, "end-date", text_of(&i64_decimal(e)));
    }
    let ghost q2 = pairs_view(q@);
    if include_pending {
        push_pair(&mut q, "pending", String::from_str("1"));
    }
    assert(pairs_view(q@) =~= accounts_query_spec(start, end, include_pending));
    q
}

/// A 2xx status.
pub open spec fn is_success_status(status: u16) -> bool {
    200 <= status <= 299
}

/// The message when the bridge refuses this app's access.
pub open spec fn revoked_message() -> Seq<char> {
    "SimpleFIN rejected this app's access (HTTP 403). The access token may have been revoked — disconnect and connect again with a new setup token."@
}

/// The error an accounts response status means: 401 and 403 say the access
/// was revoked, any other non-2xx status is reported with its code, a 2xx
/// status is no error.
pub open spec fn spec_accounts_status_error(status: u16) -> Option<Seq<char>> {
    if status == 401 || status == 403 {
        Some(revoked_message())
    } else if !is_success_status(status) {
        Some("SimpleFIN returned HTTP "@ + decimal(status as nat) + "."@)
    } else {
        None
    }
}

/// The error of an accounts response with this status, if any.
pub fn accounts_status_error(status: u16) -> (r: Option<String>)
    ensures
        match r {
            Some(m) => spec_accounts_status_error(status) == Some(m@),
            None => spec_accounts_status_error(status) is None,
        },
{
    if status == 401 || status == 403 {
        Some(
            String::from_str(
                "SimpleFIN rejected this app's access (HTTP 403). The access token may have been revoked — disconnect and connect again with a new setup token.",
            ),
        )
    } else if !(200 <= status && status <= 299) {
        let mut v = lit("SimpleFIN returned HTTP ");
        append_chars(&mut v, u64_decimal(status as u64).as_slice());
        append_chars(&mut v, lit(".").as_slice());
        Some(from_chars(v.as_slice()))
    } else {
        None
    }
}

/// The outcome of claiming a setup token from the response status and body:
/// a non-2xx status is refused with its code (tokens are single-use); a
/// body that is an http(s) URL once trimmed is the access URL; anything else
/// is an unexpected response.
pub open spec fn spec_claim_outcome(status: u16, body: Seq<char>) -> Result<Seq<char>, Seq<char>> {
    if !is_success_status(status) {
        Err(
            "Claiming the setup token failed (HTTP "@ + decimal(status as nat)
                + "). Setup tokens are single-use — generate a fresh one at your SimpleFIN Bridge account and try again."@,
        )
    } else if is_http_url(trim(body)) {
        Ok(trim(body))
    } else {
        Err("SimpleFIN returned an unexpected response while claiming the token."@)
    }
}

/// Reads the answer to a token claim.
pub fn claim_outcome(status: u16, body: &str) -> (r: Result<String, String>)
    ensures
        match r {
            Ok(u) => spec_claim_outcome(status, body@) == Ok::<Seq<char>, Seq<char>>(u@),
            Err(m) => spec_claim_outcome(status, body@) == Err::<Seq<char>, Seq<char>>(m@),
        },
{
    if !(200 <= status && status <= 299) {
        let mut v = lit("Claiming the setup token failed (HTTP ");
        append_chars(&mut v, u64_decimal(status as u64).as_slice());
        append_chars(
            &mut v,
            lit(
                "). Setup tokens are single-use — generate a fresh one at your SimpleFIN Bridge account and try again.",
            ).as_slice(),
        );
        return Err(from_chars(v.as_slice()));
    }
    let t = trim_chars(to_chars(body).as_slice());
    if crate::text::starts_with_chars(t.as_slice(), lit("http://").as_slice())
        || crate::text::starts_with_chars(t.as_slice(), lit("https://").as_slice()) {
        Ok(from_chars(t.as_slice()))
    } else {
        Err(String::from_str("SimpleFIN returned an unexpected response while claiming the token."))
    }
}

/// What chrono's RFC 3339 parser (`DateTime::parse_from_rfc3339`) reads in a
/// stored instant, as milliseconds since the epoch.
pub uninterp spec fn spec_rfc3339_millis(s: Seq<char>) -> Option<int>;

/// Instants chrono can represent: within about 262,000 years of year 0, far
/// inside this bound (milliseconds).
pub open spec fn plausible_ms(t: int) -> bool {
    -10_000_000_000_000_000 <= t <= 10_000_000_000_000_000
}

/// `DateTime::parse_from_rfc3339(s).timestamp_millis()`: the parse depends on
/// the text alone (its result is named), and every instant chrono holds lies
/// between its minimum and maximum years (±262,143).
#[verifier::external_body]
fn parse_rfc3339_millis(s: &str) -> (r: Option<i64>)
    ensures
        opt_int(r) == spec_rfc3339_millis(s@),
        r matches Some(t) ==> plausible_ms(t as int),
{
    chrono::DateTime::parse_from_rfc3339(s).ok().map(|d| d.timestamp_millis())
}

/// Whole seconds (rounded down) of an instant in milliseconds.
fn floor_secs(ms: i64) -> (s: i64)
    requires
        plausible_ms(ms as int),
    ensures
        s == (ms as int) / 1000,
        plausible_ts(s as int),
{
    if ms >= 0 {
        ms / 1000
    } else {
        let neg: i64 = -ms;
        let q = (neg + 999) / 1000;
        assert(-q == (ms as int) / 1000) by (nonlinear_arith)
            requires
                ms < 0,
                neg == -ms,
                q == (neg + 999) / 1000,
        ;
        -q
    }
}

pub open spec fn opt_secs(o: Option<int>) -> Option<int> {
    match o {
        Some(ms) => Some(ms / 1000),
        None => None,
    }
}

/// The last success as read from its stored text: whole seconds, none when
/// absent or unreadable.
pub open spec fn stored_secs(t: Option<&str>) -> Option<int> {
    match t {
        Some(x) => opt_secs(spec_rfc3339_millis(x@)),
        None => None,
    }
}

/// The fetch window of a sync (unix seconds, end exclusive): a requested
/// range as given; otherwise the regular window from the stored last success
/// (RFC 3339; unreadable counts as never) anchored to the oldest pending
/// date, with no end.
pub fn fetch_window(
    range: Option<(i64, i64)>,
    now: i64,
    last_success: Option<&str>,
    oldest_pending: Option<&str>,
) -> (w: (i64, Option<i64>))
    requires
        plausible_ts(now as int),
    ensures
        range matches Some((s, e)) ==> w == (s, Some(e)),
        range is None ==> w.1 is None,
        range is None ==> w.0 <= spec_window_start(now as int, stored_secs(last_success), None),
        range is None ==> exists|a: Option<int>|
            w.0 == spec_window_start(now as int, stored_secs(last_success), a) && (a matches Some(x) ==> (
            oldest_pending matches Some(d) && spec_parse_ymd(d@) matches Some(days) && near_midnight_of(x, days))),
{
    match range {
        Some((s, e)) => (s, Some(e)),
        None => {
            let ls: Option<i64> = match last_success {
                Some(t) => match parse_rfc3339_millis(t) {
                    Some(ms) => Some(floor_secs(ms)),
                    None => None,
                },
                None => None,
            };
            assert(opt_int(ls) == stored_secs(last_success));
            (window_start(now, ls, oldest_pending), None)
        },
    }
}

/// Whether the scheduler should sync now (milliseconds): `sync_due` over
/// the stored last success and last attempt (RFC 3339; unreadable counts as
/// never).
pub fn scheduled_sync_due(now: i64, last_success: Option<&str>, last_attempt: Option<&str>) -> (r: bool)
    ensures
        r == spec_sync_due(
            now as int,
            match last_success {
                Some(t) => spec_rfc3339_millis(t@),
                None => None,
            },
            match last_attempt {
                Some(t) => spec_rfc3339_millis(t@),
                None => None,
            },
        ),
{
    let s = match last_success {
        Some(t) => parse_rfc3339_millis(t),
        None => None,
    };
    let a = match last_attempt {
        Some(t) => parse_rfc3339_millis(t),
        None => None,
    };
    sync_due(now, s, a)
}

/// The proleptic Gregorian (year, month, day) of the day `days` days after
/// 1970-01-01 (negative: before it). The calendar repeats every 400 years
/// (146,097 days), so the day is placed in the cycle starting at 1970 and the
/// year shifted by whole cycles.
pub open spec fn civil_from_days(days: int) -> (int, int, int) {
    let cycles = days / 146_097;
    let in_cycle = days % 146_097;
    let p = spec_epoch_to_parts((in_cycle * 86400) as nat);
    (p.0 + 400 * cycles, p.1, p.2)
}

/// A year as chrono's "%Y" writes it: four digits (zero-padded) for
/// 0..=9999, otherwise an explicit sign followed by at least four digits.
pub open spec fn year_text(y: int) -> Seq<char> {
    if 0 <= y <= 9999 {
        zero_padded(y as nat, 4)
    } else if y < 0 {
        seq!['-'] + zero_padded((-y) as nat, 4)
    } else {
        seq!['+'] + zero_padded(y as nat, 4)
    }
}

/// The "%Y-%m-%d" text of the day `days` days after 1970-01-01.
pub open spec fn day_text(days: int) -> Seq<char> {
    let c = civil_from_days(days);
    year_text(c.0) + "-"@ + zero_padded(c.1 as nat, 2) + "-"@ + zero_padded(c.2 as nat, 2)
}

/// Day `days` (after 1970-01-01) is the UTC day of `ts` or one of its
/// neighbours: where any time zone with an offset under 24 hours can put the
/// local date of `ts`.
pub open spec fn within_a_day_of(ts: int, days: int) -> bool {
    ts / 86400 - 1 <= days <= ts / 86400 + 1
}

/// `text` is the "%Y-%m-%d" of the UTC day of `ts` or of a neighbour.
pub open spec fn is_local_date_of(ts: int, text: Seq<char>) -> bool {
    exists|d: int| within_a_day_of(ts, d) && #[trigger] day_text(d) == text
}

/// Instants chrono turns into a local date-time (its dates span about
/// ±262,000 years; this bound leaves more than a day of margin).
pub open spec fn local_date_in_range(ts: int) -> bool {
    -8_000_000_000_000 <= ts <= 8_000_000_000_000
}

/// The local calendar date "YYYY-MM-DD" of a unix timestamp, through
/// `chrono::Local.timestamp_opt(ts, 0).single()` formatted with "%Y-%m-%d".
/// `timestamp_opt` gives a single local time for every timestamp
/// `DateTime::from_timestamp` accepts, shifted by an offset strictly under 24
/// hours (`FixedOffset::east_opt`), so the local date is the UTC day of `ts`
/// or a neighbour. Which of them is left unsaid: it depends on the machine's
/// time zone. chrono writes "%Y" as four zero-padded digits for years
/// 0..=9999 and with an explicit sign otherwise (`write_year`), so a date has
/// at least ten characters.
#[verifier::external_body]
fn local_date_text(ts: i64) -> (r: Option<String>)
    ensures
        local_date_in_range(ts as int) ==> r is Some,
        r matches Some(s) ==> s@.len() >= 10,
        r matches Some(s) ==> (local_date_in_range(ts as int) ==> is_local_date_of(ts as int, s@)),
{
    chrono::Local.timestamp_opt(ts, 0).single().map(|d| d.format("%Y-%m-%d").to_string())
}

/// The local calendar date of a unix timestamp, as transaction dates and
/// balance dates are stored: the UTC day of `ts` or a neighbour, as the
/// machine's time zone places it; "1970-01-01" only when the time zone gives
/// no date, which cannot happen inside `local_date_in_range`.
pub fn ts_to_date(ts: i64) -> (r: String)
    ensures
        r@ == "1970-01-01"@ || r@.len() >= 10,
        local_date_in_range(ts as int) ==> r@.len() >= 10,
        local_date_in_range(ts as int) ==> is_local_date_of(ts as int, r@),
{
    date_or_epoch(local_date_text(ts))
}

/// A formatted local date, or "1970-01-01" when the time zone gave none.
pub fn date_or_epoch(d: Option<String>) -> (r: String)
    ensures
        match d {
            Some(s) => r@ == s@,
            None => r@ == "1970-01-01"@,
        },
{
    match d {
        Some(s) => s,
        None => String::from_str("1970-01-01"),
    }
}

/// A bridge account as cached for the linking screen; balance in cents.
pub struct SimpleFinRemoteAccount {
    pub id: String,
    pub name: String,
    pub org: Option<String>,
    pub balance: i64,
    pub balance_date: String,
    pub currency: Option<String>,
    pub linked_account_id: Option<i32>,
}

pub open spec fn opt_view(o: Option<String>) -> Option<Seq<char>> {
    match o {
        Some(s) => Some(s@),
        None => None,
    }
}

/// The cache entry of a bridge account: its name, or its id when unnamed;
/// its organisation's name, or domain when unnamed; not linked yet.
pub fn remote_account_entry(
    id: String,
    name: Option<String>,
    org_name: Option<String>,
    org_domain: Option<String>,
    balance: i64,
    balance_date: String,
    currency: Option<String>,
) -> (a: SimpleFinRemoteAccount)
    ensures
        a.id@ == id@,
        a.name@ == (match name {
            Some(n) => n@,
            None => id@,
        }),
        opt_view(a.org) == (match org_name {
            Some(n) => Some(n@),
            None => opt_view(org_domain),
        }),
        a.balance == balance,
        a.balance_date@ == balance_date@,
        opt_view(a.currency) == opt_view(currency),
        a.linked_account_id is None,
{
    let n = match name {
        Some(n) => n,
        None => id.clone(),
    };
    let org = match org_name {
        Some(o) => Some(o),
        None => org_domain,
    };
    SimpleFinRemoteAccount {
        id,
        name: n,
        org,
        balance,
        balance_date,
        currency,
        linked_account_id: None,
    }
}

/// The local account linked to a bridge account: the last link listed for
/// its id (later links replace earlier ones).
pub open spec fn link_for(links: Seq<(String, i32)>, id: Seq<char>) -> Option<i32>
    decreases links.len(),
{
    if links.len() == 0 {
        None
    } else if links.last().0@ == id {
        Some(links.last().1)
    } else {
        link_for(links.drop_last(), id)
    }
}

fn link_for_exec(links: &[(String, i32)], id: &str) -> (r: Option<i32>)
    ensures
        r == link_for(links@, id@),
{
    let mut i: usize = links.len();
    assert(links@.subrange(0, links@.len() as int) =~= links@);
    while i > 0
        invariant
            i <= links@.len(),
            link_for(links@, id@) == link_for(links@.subrange(0, i as int), id@),
        decreases i,
    {
        let ghost sub = links@.subrange(0, i as int);
        assert(sub.drop_last() =~= links@.subrange(0, i - 1));
        assert(sub.last() == links@[i - 1]);
        if str_eq(links[i - 1].0.as_str(), id) {
            return Some(links[i - 1].1);
        }
        i = i - 1;
    }
    assert(links@.subrange(0, 0).len() == 0);
    None
}

/// The cached accounts with their current links filled in from the account
/// table's `(bridge id, local id)` pairs.
pub fn with_links(accounts: &[SimpleFinRemoteAccount], links: &[(String, i32)]) -> (r: Vec<
    SimpleFinRemoteAccount,
>)
    ensures
        r@.len() == accounts@.len(),
        forall|k: int|
            0 <= k < accounts@.len() ==> {
                let a = #[trigger] r@[k];
                let b = accounts@[k];
                &&& a.id@ == b.id@
                &&& a.name@ == b.name@
                &&& opt_view(a.org) == opt_view(b.org)
                &&& a.balance == b.balance
                &&& a.balance_date@ == b.balance_date@
                &&& opt_view(a.currency) == opt_view(b.currency)
                &&& a.linked_account_id == link_for(links@, b.id@)
            },
{
    let mut out: Vec<SimpleFinRemoteAccount> = Vec::new();
    let mut i: usize = 0;
    while i < accounts.len()
        invariant
            i <= accounts@.len(),
            out@.len() == i,
            forall|k: int|
                0 <= k < i ==> {
                    let a = #[trigger] out@[k];
                    let b = accounts@[k];
                    &&& a.id@ == b.id@
                    &&& a.name@ == b.name@
                    &&& opt_view(a.org) == opt_view(b.org)
                    &&& a.balance == b.balance
                    &&& a.balance_date@ == b.balance_date@
                    &&& opt_view(a.currency) == opt_view(b.currency)
                    &&& a.linked_account_id == link_for(links@, b.id@)
                },
        decreases accounts.len() - i,
    {
        let b = &accounts[i];
        let a = SimpleFinRemoteAccount {
            id: b.id.clone(),
            name: b.name.clone(),
            org: b.org.clone(),
            balance: b.balance,
            balance_date: b.balance_date.clone(),
            currency: b.currency.clone(),
            linked_account_id: link_for_exec(links, b.id.as_str()),
        };
        out.push(a);
        i = i + 1;
    }
    out
}

/// The columns of the bridge's sync-state row that may be written.
pub open spec fn is_state_column(c: Seq<char>) -> bool {
    ||| c == "claimed_at"@ || c == "last_attempt_at"@ || c == "last_success_at"@
    ||| c == "last_error"@ || c == "bridge_errors"@ || c == "accounts_json"@
}

/// The statement that writes one column of the sync-state row; only the
/// fixed set of columns is ever put into SQL.
pub fn state_update_sql(column: &str) -> (r: Option<String>)
    ensures
        match r {
            Some(s) => is_state_column(column@) && s@ == "UPDATE simplefin_state SET "@ + column@
                + " = ?1 WHERE id = 1"@,
            None => !is_state_column(column@),
        },
{
    let ok = str_eq(column, "claimed_at") || str_eq(column, "last_attempt_at") || str_eq(
        column,
        "last_success_at",
    ) || str_eq(column, "last_error") || str_eq(column, "bridge_errors") || str_eq(
        column,
        "accounts_json",
    );
    if !ok {
        return None;
    }
    let mut v = lit("UPDATE simplefin_state SET ");
    append_chars(&mut v, to_chars(column).as_slice());
    append_chars(&mut v, lit(" = ?1 WHERE id = 1").as_slice());
    Some(from_chars(v.as_slice()))
}

} // verus!
