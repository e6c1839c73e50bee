//! The traffic counters: what is reported to them, what they are asked, and what they answer.

use crate::json_text::{
    fields_view, json_object, less_at, members_of, names_of, object_text, JsonValue, JsonValueView,
};
use crate::text::{
    decimal, decimal_text, is_digit, lemma_decimal, lemma_decimal_reads_back, parse_i64, same_text,
    signed_decimal, signed_value, unsigned_value,
};
use crate::tunnel::last_value;
use crate::url_text::{
    is_plain, object_url, pairs_view, path_of, query_of, two_pairs, url_path, url_query,
};
use vstd::arithmetic::power::{lemma_pow1, lemma_pow_adds, pow};
use vstd::prelude::*;
use vstd::string::*;

verus! {

/// The counters: when they were set up, in milliseconds, and the bytes that went either way.
#[derive(Clone, Copy, Debug, PartialEq, Eq, Structural)]
pub struct Stats {
    pub first_seen: i64,
    pub up_bytes: i64,
    pub down_bytes: i64,
}

/// What the counters are asked.
#[derive(Clone, Copy, Debug, PartialEq, Eq, Structural)]
pub enum StatsRequest {
    /// To say what they have counted.
    Snapshot,
    /// To count these bytes too.
    Report { up: i64, down: i64 },
    /// Something else.
    NotFound,
}

/// The URL by which the bytes of one relay are reported.
pub open spec fn report_text(up: u64, down: u64) -> Seq<char> {
    "https://do/report?up="@ + decimal(up as nat) + "&down="@ + decimal(down as nat)
}

/// The URL by which the bytes of one relay are reported.
pub fn report_url(up: u64, down: u64) -> (url: String)
    ensures
        url@ == report_text(up, down),
{
    let mut url: String = "https://do/report?up=".to_owned();
    url.append(decimal_text(up).as_str());
    url.append("&down=");
    url.append(decimal_text(down).as_str());
    url
}

/// The URL by which the counters are asked what they have counted.
pub fn stats_url() -> (url: &'static str)
    ensures
        url@ == "https://do/stats"@,
{
    "https://do/stats"
}

/// The number that a query gives for a name; zero, where it gives none.
pub open spec fn amount(pairs: Seq<(Seq<char>, Seq<char>)>, name: Seq<char>) -> i64 {
    match last_value(pairs, name) {
        Some(text) => match signed_value(text) {
            Some(n) => n,
            None => 0,
        },
        None => 0,
    }
}

/// What a path and the names and values of a query ask.
pub open spec fn stats_request(
    path: Seq<char>,
    pairs: Seq<(Seq<char>, Seq<char>)>,
) -> StatsRequest {
    if path == "/stats"@ {
        StatsRequest::Snapshot
    } else if path == "/report"@ {
        StatsRequest::Report { up: amount(pairs, "up"@), down: amount(pairs, "down"@) }
    } else {
        StatsRequest::NotFound
    }
}

/// The number that is counted for a reported one: what no `i64` holds is not counted.
pub open spec fn counted(n: u64) -> i64 {
    if n <= i64::MAX {
        n as i64
    } else {
        0
    }
}

/// The counters' answer to the question what they have counted.
pub open spec fn stats_json(s: Stats, now: i64) -> Seq<char> {
    json_object(
        members_of(
            seq![
                ("down_bytes"@, JsonValueView::Number(s.down_bytes)),
                ("first_seen"@, JsonValueView::Number(s.first_seen)),
                ("up_bytes"@, JsonValueView::Number(s.up_bytes)),
                ("uptime_seconds"@, JsonValueView::Number(uptime_seconds(s.first_seen, now))),
            ],
        ),
    )
}

/// The whole seconds from `first_seen` to `now`; none, where the clock went back.
pub open spec fn uptime_seconds(first_seen: i64, now: i64) -> i64 {
    if now >= first_seen {
        ((now - first_seen) / 1000) as i64
    } else {
        0
    }
}

/// The counters that are stored; where there are none, fresh ones.
pub open spec fn stored(rows: Seq<Stats>, now: i64) -> Stats {
    if rows.len() > 0 {
        rows[0]
    } else {
        Stats { first_seen: now, up_bytes: 0, down_bytes: 0 }
    }
}

impl Stats {
    /// What the names and values of a report say.
    pub fn report(pairs: &Vec<(String, String)>) -> (r: StatsRequest)
        ensures
            r == (StatsRequest::Report {
                up: amount(pairs_view(pairs@), "up"@),
                down: amount(pairs_view(pairs@), "down"@),
            }),
    {
        let ghost view = pairs_view(pairs@);
        let mut up: i64 = 0;
        let mut down: i64 = 0;
        let mut i: usize = 0;
        proof {
            reveal_strlit("up");
            reveal_strlit("down");
            assert("up"@.len() != "down"@.len());
            assert(view.take(0) == Seq::<(Seq<char>, Seq<char>)>::empty());
        }
        while i < pairs.len()
            invariant
                i <= pairs.len(),
                view == pairs_view(pairs@),
                up == amount(view.take(i as int), "up"@),
                down == amount(view.take(i as int), "down"@),
                "up"@ != "down"@,
            decreases pairs.len() - i,
        {
            let pair: &(String, String) = &pairs[i];
            assert(view.take(i + 1).drop_last() == view.take(i as int));
            assert(view.take(i + 1).last() == (pair.0@, pair.1@));
            let n: i64 = match parse_i64(pair.1.as_str()) {
                Some(n) => n,
                None => 0,
            };
            if same_text(pair.0.as_str(), "up") {
                up = n;
            } else if same_text(pair.0.as_str(), "down") {
                down = n;
            }
            i = i + 1;
        }
        assert(view.take(i as int) == view);
        StatsRequest::Report { up, down }
    }

    /// What a path and the names and values of a query ask.
    pub fn dispatch(path: &str, pairs: &Vec<(String, String)>) -> (r: StatsRequest)
        ensures
            r == stats_request(path@, pairs_view(pairs@)),
    {
        if same_text(path, "/stats") {
            StatsRequest::Snapshot
        } else if same_text(path, "/report") {
            Self::report(pairs)
        } else {
            StatsRequest::NotFound
        }
    }

    /// What a request asks by its URL; none, if that is no URL. The report of one relay counts
    /// as many bytes as it was made for, as far as an `i64` holds them.
    pub fn fetch(url: &str) -> (r: Option<StatsRequest>)
        ensures
            r == match url_path(url@) {
                Some(path) => Some(stats_request(path, pairs_or_none(url_query(url@)))),
                None => None,
            },
            url@ == "https://do/stats"@ ==> r == Some(StatsRequest::Snapshot),
            forall|up: u64, down: u64|
                url@ == #[trigger] report_text(up, down) ==> r == Some(
                    StatsRequest::Report { up: counted(up), down: counted(down) },
                ),
    {
        let path: Option<String> = path_of(url);
        let query: Option<Vec<(String, String)>> = query_of(url);
        proof {
            lemma_stats_url();
            assert(object_url("/"@ + "stats"@) == "https://do/stats"@);
            assert forall|up: u64, down: u64| url@ == #[trigger] report_text(up, down) implies {
                &&& url_path(url@) == Some("/report"@)
                &&& stats_request("/report"@, pairs_or_none(url_query(url@)))
                    == (StatsRequest::Report { up: counted(up), down: counted(down) })
            } by {
                lemma_report_url(up, down);
                let pairs = seq![
                    ("up"@, decimal(up as nat)),
                    ("down"@, decimal(down as nat)),
                ];
                assert(url@ == object_url("/"@ + "report"@) + two_pairs(
                    "up"@,
                    decimal(up as nat),
                    "down"@,
                    decimal(down as nat),
                ));
                assert(url_query(url@) == Some(pairs));
            }
        }
        match path {
            Some(path) => {
                let pairs: Vec<(String, String)> = match query {
                    Some(pairs) => pairs,
                    None => Vec::new(),
                };
                assert(pairs_view(pairs@) == pairs_or_none(url_query(url@)));
                Some(Self::dispatch(path.as_str(), &pairs))
            },
            None => None,
        }
    }

    /// The counters' answer to the question what they have counted: a JSON object of the stored
    /// numbers, or of fresh ones, and the time since they were set up.
    pub fn get_stats(rows: &Vec<Stats>, now: i64) -> (body: String)
        requires
            i64::MIN <= now - stored(rows@, now).first_seen <= i64::MAX,
        ensures
            body@ == stats_json(stored(rows@, now), now),
    {
        let s: Stats = if rows.len() > 0 {
            rows[0]
        } else {
            Stats { first_seen: now, up_bytes: 0, down_bytes: 0 }
        };
        let elapsed: i64 = now - s.first_seen;
        let uptime: i64 = if elapsed > 0 {
            elapsed / 1000
        } else {
            0
        };
        let fields: Vec<(&'static str, JsonValue)> = vec![
            ("down_bytes", JsonValue::Number(s.down_bytes)),
            ("first_seen", JsonValue::Number(s.first_seen)),
            ("up_bytes", JsonValue::Number(s.up_bytes)),
            ("uptime_seconds", JsonValue::Number(uptime)),
        ];
        proof {
            assert(fields_view(fields@) == seq![
                ("down_bytes"@, JsonValueView::Number(s.down_bytes)),
                ("first_seen"@, JsonValueView::Number(s.first_seen)),
                ("up_bytes"@, JsonValueView::Number(s.up_bytes)),
                ("uptime_seconds"@, JsonValueView::Number(uptime)),
            ]);
            let names = names_of(fields_view(fields@));
            reveal_strlit("down_bytes");
            reveal_strlit("first_seen");
            reveal_strlit("up_bytes");
            reveal_strlit("uptime_seconds");
            assert(less_at(names[0], names[1], 0));
            assert(less_at(names[1], names[2], 0));
            assert(less_at(names[2], names[3], 2));
        }
        object_text(fields)
    }
}

/// The names and values of a query; none at all, where there is no query.
pub open spec fn pairs_or_none(pairs: Option<Seq<(Seq<char>, Seq<char>)>>) -> Seq<
    (Seq<char>, Seq<char>),
> {
    match pairs {
        Some(q) => q,
        None => Seq::empty(),
    }
}

proof fn lemma_stats_url()
    ensures
        object_url("/"@ + "stats"@) == "https://do/stats"@,
        "/"@ + "stats"@ == "/stats"@,
        is_plain("stats"@),
{
    reveal_strlit("https://do/stats");
    reveal_strlit("https://do");
    reveal_strlit("/");
    reveal_strlit("stats");
    reveal_strlit("/stats");
    assert(object_url("/"@ + "stats"@) =~= "https://do/stats"@);
    assert("/"@ + "stats"@ =~= "/stats"@);
}

proof fn lemma_decimal_len(n: nat, k: nat)
    requires
        k > 0,
        n < pow(10, k),
    ensures
        decimal(n).len() <= k,
    decreases n,
{
    if n >= 10 {
        let m = (k - 1) as nat;
        lemma_pow1(10);
        lemma_pow_adds(10, 1, m);
        assert(n / 10 < pow(10, m)) by (nonlinear_arith)
            requires
                n < 10 * pow(10, m),
        ;
        lemma_decimal_len(n / 10, m);
    }
}

proof fn lemma_decimal_is_plain(n: u64)
    ensures
        is_plain(decimal(n as nat)),
{
    lemma_decimal(n as nat);
    assert(n < pow(10, 20)) by {
        lemma_pow1(10);
        lemma_pow_adds(10, 1, 1);
        assert(pow(10, 2) == 100);
        lemma_pow_adds(10, 2, 2);
        assert(pow(10, 4) == 100 * 100);
        lemma_pow_adds(10, 4, 1);
        assert(pow(10, 5) == 10_000 * 10);
        lemma_pow_adds(10, 5, 5);
        assert(pow(10, 10) == 100_000 * 100_000);
        lemma_pow_adds(10, 10, 10);
        assert(pow(10, 20) == 10_000_000_000 * 10_000_000_000);
    }
    lemma_decimal_len(n as nat, 20);
    let s = decimal(n as nat);
    assert forall|i: int| 0 <= i < s.len() implies 'a' <= #[trigger] s[i] <= 'z' || '0' <= s[i]
        <= '9' by {
        assert(is_digit(s[i]));
    }
}

proof fn lemma_amount_reads_back(pairs: Seq<(Seq<char>, Seq<char>)>, name: Seq<char>, n: u64)
    requires
        last_value(pairs, name) == Some(decimal(n as nat)),
    ensures
        amount(pairs, name) == counted(n),
{
    lemma_decimal(n as nat);
    assert(is_digit(decimal(n as nat)[0]));
    lemma_decimal_reads_back(n as nat, n as nat);
}

proof fn lemma_report_url(up: u64, down: u64)
    ensures
        report_text(up, down) == object_url("/"@ + "report"@) + two_pairs(
            "up"@,
            decimal(up as nat),
            "down"@,
            decimal(down as nat),
        ),
        "/"@ + "report"@ == "/report"@,
        is_plain("report"@),
        is_plain("up"@),
        is_plain("down"@),
        is_plain(decimal(up as nat)),
        is_plain(decimal(down as nat)),
        stats_request(
            "/report"@,
            seq![("up"@, decimal(up as nat)), ("down"@, decimal(down as nat))],
        ) == (StatsRequest::Report { up: counted(up), down: counted(down) }),
{
    reveal_strlit("https://do/report?up=");
    reveal_strlit("https://do");
    reveal_strlit("/");
    reveal_strlit("report");
    reveal_strlit("/report");
    reveal_strlit("/stats");
    reveal_strlit("?");
    reveal_strlit("=");
    reveal_strlit("&");
    reveal_strlit("&down=");
    reveal_strlit("up");
    reveal_strlit("down");
    let u = decimal(up as nat);
    let d = decimal(down as nat);
    lemma_decimal_is_plain(up);
    lemma_decimal_is_plain(down);
    assert("https://do/report?up="@ =~= object_url("/"@ + "report"@) + "?"@ + "up"@ + "="@);
    assert("&down="@ =~= "&"@ + "down"@ + "="@);
    assert(report_text(up, down) =~= object_url("/"@ + "report"@) + two_pairs(
        "up"@,
        u,
        "down"@,
        d,
    ));
    assert("/"@ + "report"@ =~= "/report"@);
    let pairs = seq![("up"@, u), ("down"@, d)];
    assert("/report"@.len() != "/stats"@.len());
    assert("up"@.len() != "down"@.len());
    reveal_with_fuel(last_value, 3);
    assert(pairs.drop_last().last() == ("up"@, u));
    lemma_amount_reads_back(pairs, "up"@, up);
    lemma_amount_reads_back(pairs, "down"@, down);
}

/// The time since the counters were set up is never negative, and is rounded down to a second.
pub proof fn law_uptime_is_rounded_down(first_seen: i64, now: i64)
    requires
        now - first_seen <= i64::MAX,
    ensures
        uptime_seconds(first_seen, now) >= 0,
        now < first_seen ==> uptime_seconds(first_seen, now) == 0,
        now >= first_seen ==> uptime_seconds(first_seen, now) * 1000 <= now - first_seen
            < uptime_seconds(first_seen, now) * 1000 + 1000,
{
}

/// A report tells the two numbers of bytes, each in decimal behind its name.
pub proof fn law_report_tells_the_bytes(up: u64, down: u64) -> (told: (Seq<char>, Seq<char>))
    ensures
        report_text(up, down) == "https://do/report?up="@ + told.0 + "&down="@ + told.1,
        told.0 == decimal(up as nat),
        told.1 == decimal(down as nat),
        unsigned_value(told.0, u64::MAX as nat) == Some(up as nat),
        unsigned_value(told.1, u64::MAX as nat) == Some(down as nat),
{
    lemma_decimal_reads_back(up as nat, u64::MAX as nat);
    lemma_decimal_reads_back(down as nat, u64::MAX as nat);
    (decimal(up as nat), decimal(down as nat))
}

/// A report is read as the numbers that it tells, each where it belongs: what an `i64` holds is
/// counted in full, and what it does not hold is not counted.
pub proof fn law_report_is_counted(up: u64, down: u64)
    ensures
        stats_request(
            "/report"@,
            seq![("up"@, decimal(up as nat)), ("down"@, decimal(down as nat))],
        ) matches StatsRequest::Report { up: u, down: d } && (up <= i64::MAX ==> u == up) && (up
            > i64::MAX ==> u == 0) && (down <= i64::MAX ==> d == down) && (down > i64::MAX ==> d
            == 0),
{
    lemma_report_url(up, down);
}

/// The path decides what is asked: `/stats` for what was counted, `/report` to count, and nothing
/// else is known.
pub proof fn law_path_decides(path: Seq<char>, pairs: Seq<(Seq<char>, Seq<char>)>)
    ensures
        stats_request(path, pairs) is Snapshot <==> path == "/stats"@,
        stats_request(path, pairs) is Report <==> path == "/report"@,
{
    reveal_strlit("/stats");
    reveal_strlit("/report");
    assert("/stats"@.len() != "/report"@.len());
}

/// What is counted is the number in the last pair of each name; a name without one, or with what
/// is no number, counts zero.
pub proof fn law_amounts_are_read(pairs: Seq<(Seq<char>, Seq<char>)>)
    ensures
        ({
            let number = |name: Seq<char>|
                match last_value(pairs, name) {
                    Some(text) => match signed_value(text) {
                        Some(n) => n,
                        None => 0i64,
                    },
                    None => 0i64,
                };
            stats_request("/report"@, pairs) == (StatsRequest::Report {
                up: number("up"@),
                down: number("down"@),
            })
        }),
{
    law_path_decides("/report"@, pairs);
}

/// What a query's missing pairs count as.
pub proof fn law_missing_pairs_are_none(pairs: Seq<(Seq<char>, Seq<char>)>)
    ensures
        pairs_or_none(Some(pairs)) == pairs,
        pairs_or_none(None).len() == 0,
{
}

/// The counters are those of the first row; without a row they start at zero, now.
pub proof fn law_first_row_counts(rows: Seq<Stats>, now: i64)
    ensures
        rows.len() > 0 ==> stored(rows, now) == rows[0],
        rows.len() == 0 ==> {
            &&& stored(rows, now).first_seen == now
            &&& stored(rows, now).up_bytes == 0
            &&& stored(rows, now).down_bytes == 0
        },
{
}

/// The answer is an object of four numbers: the bytes either way, since when they are counted, and
/// for how many whole seconds.
pub proof fn law_answer_tells_the_counters(s: Stats, now: i64) -> (seconds: int)
    requires
        i64::MIN <= now - s.first_seen <= i64::MAX,
    ensures
        now < s.first_seen ==> seconds == 0,
        now >= s.first_seen ==> seconds * 1000 <= now - s.first_seen < seconds * 1000 + 1000,
        stats_json(s, now) == json_object(
            seq![
                ("down_bytes"@, signed_decimal(s.down_bytes as int)),
                ("first_seen"@, signed_decimal(s.first_seen as int)),
                ("up_bytes"@, signed_decimal(s.up_bytes as int)),
                ("uptime_seconds"@, signed_decimal(seconds)),
            ],
        ),
{
    let seconds = uptime_seconds(s.first_seen, now) as int;
    law_uptime_is_rounded_down(s.first_seen, now);
    let fields = seq![
        ("down_bytes"@, JsonValueView::Number(s.down_bytes)),
        ("first_seen"@, JsonValueView::Number(s.first_seen)),
        ("up_bytes"@, JsonValueView::Number(s.up_bytes)),
        ("uptime_seconds"@, JsonValueView::Number(uptime_seconds(s.first_seen, now))),
    ];
    assert(members_of(fields) == seq![
        ("down_bytes"@, signed_decimal(s.down_bytes as int)),
        ("first_seen"@, signed_decimal(s.first_seen as int)),
        ("up_bytes"@, signed_decimal(s.up_bytes as int)),
        ("uptime_seconds"@, signed_decimal(seconds)),
    ]);
    seconds
}

} // verus!
