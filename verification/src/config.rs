//! Command-line options of the monitor.

use crate::text::{chars_of, owned, starts_with, str_eq};
use vstd::prelude::*;

verus! {

/// Where the monitor connects, listens and stores, and its base polling
/// period.
#[derive(Debug)]
pub struct Args {
    /// Address of the TCP proxy of the Bluetooth adapter.
    pub bt_proxy: String,
    /// Address the dashboard server listens on.
    pub listen: String,
    /// Path of the SQLite database.
    pub db: String,
    /// Base polling period in milliseconds.
    pub poll_ms: u64,
}

/// The options as texts and number.
pub type ArgsModel = (Seq<char>, Seq<char>, Seq<char>, u64);

pub open spec fn default_args() -> ArgsModel {
    ("127.0.0.1:35000"@, "127.0.0.1:8080"@, "/data/data/com.tapiti.obd/files/tapiti.db"@, 100)
}

pub open spec fn is_digit(c: char) -> bool {
    '0' <= c <= '9'
}

/// The text after an optional leading `+`.
pub open spec fn unsigned_digits(s: Seq<char>) -> Seq<char> {
    if s.len() > 0 && s[0] == '+' {
        s.skip(1)
    } else {
        s
    }
}

pub open spec fn all_digits(d: Seq<char>) -> bool {
    forall|i: int| 0 <= i < d.len() ==> is_digit(#[trigger] d[i])
}

/// Value of a run of decimal digits.
pub open spec fn digits_value(s: Seq<char>) -> nat
    decreases s.len(),
{
    if s.len() == 0 {
        0
    } else {
        10 * digits_value(s.drop_last()) + ((s.last() as u32) - 48) as nat
    }
}

/// `str::parse::<u64>`: an optional `+` then at least one decimal digit, with
/// a value that fits in 64 bits.
pub open spec fn parse_u64_spec(s: Seq<char>) -> Option<u64> {
    let d = unsigned_digits(s);
    if d.len() > 0 && all_digits(d) && digits_value(d) <= u64::MAX {
        Some(digits_value(d) as u64)
    } else {
        None
    }
}

/// The options after reading the arguments from index `i` on, starting from
/// `acc`. Each known flag takes the next argument as its value (a flag
/// without a value is ignored); unknown arguments are skipped. A
/// `--poll-ms` value that is not a number gives 100.
pub open spec fn args_from(args: Seq<Seq<char>>, i: int, acc: ArgsModel) -> ArgsModel
    decreases args.len() - i,
{
    if i < 0 || i >= args.len() {
        acc
    } else {
        let a = args[i];
        let has_value = i + 1 < args.len();
        if a == "--bt-proxy"@ || a == "--listen"@ || a == "--db"@ || a == "--poll-ms"@ {
            if !has_value {
                acc
            } else {
                let v = args[i + 1];
                let next = if a == "--bt-proxy"@ {
                    (v, acc.1, acc.2, acc.3)
                } else if a == "--listen"@ {
                    (acc.0, v, acc.2, acc.3)
                } else if a == "--db"@ {
                    (acc.0, acc.1, v, acc.3)
                } else {
                    (
                        acc.0,
                        acc.1,
                        acc.2,
                        match parse_u64_spec(v) {
                            Some(n) => n,
                            None => 100,
                        },
                    )
                };
                args_from(args, i + 2, next)
            }
        } else {
            args_from(args, i + 1, acc)
        }
    }
}

pub open spec fn args_view(a: Args) -> ArgsModel {
    (a.bt_proxy@, a.listen@, a.db@, a.poll_ms)
}

pub open spec fn args_seq(args: Seq<String>) -> Seq<Seq<char>> {
    args.map_values(|s: String| s@)
}

proof fn lemma_digits_value_prefix(s: Seq<char>, i: int)
    requires
        0 <= i <= s.len(),
    ensures
        digits_value(s.take(i)) <= digits_value(s),
    decreases s.len() - i,
{
    if i < s.len() {
        lemma_digits_value_prefix(s, i + 1);
        assert(s.take(i + 1).drop_last() =~= s.take(i));
    } else {
        assert(s.take(i) =~= s);
    }
}

/// `str::parse::<u64>`.
pub fn parse_u64(s: &str) -> (r: Option<u64>)
    ensures
        r == parse_u64_spec(s@),
{
    let v = chars_of(s);
    let start: usize = if v.len() > 0 && v[0] == '+' {
        1
    } else {
        0
    };
    let ghost d = unsigned_digits(s@);
    assert(d =~= v@.skip(start as int));
    if start >= v.len() {
        return None;
    }
    let mut value: u64 = 0;
    let mut i = start;
    while i < v.len()
        invariant
            v@ == s@,
            start <= i <= v@.len(),
            d == v@.skip(start as int),
            d == unsigned_digits(s@),
            forall|j: int| 0 <= j < i - start ==> is_digit(#[trigger] d[j]),
            value as nat == digits_value(d.take(i - start)),
        decreases v@.len() - i,
    {
        let c = v[i];
        if !('0' <= c && c <= '9') {
            assert(!is_digit(d[i - start]));
            return None;
        }
        let digit = (c as u32 - 48) as u64;
        assert(d.take(i - start + 1).drop_last() =~= d.take(i - start));
        match value.checked_mul(10) {
            Some(m) => match m.checked_add(digit) {
                Some(n) => {
                    value = n;
                },
                None => {
                    proof {
                        lemma_digits_value_prefix(d, i - start + 1);
                    }
                    return None;
                },
            },
            None => {
                proof {
                    lemma_digits_value_prefix(d, i - start + 1);
                }
                return None;
            },
        }
        i += 1;
    }
    assert(d.take(d.len() as int) =~= d);
    Some(value)
}

impl Args {
    /// The options given by the command-line arguments `args` (without the
    /// program name), over the defaults.
    pub fn parse(args: &Vec<String>) -> (a: Args)
        ensures
            args_view(a) == args_from(args_seq(args@), 0, default_args()),
    {
        let mut bt_proxy = owned("127.0.0.1:35000");
        let mut listen = owned("127.0.0.1:8080");
        let mut db = owned("/data/data/com.tapiti.obd/files/tapiti.db");
        let mut poll_ms: u64 = 100;
        let ghost all = args_seq(args@);
        let n = args.len();
        let mut i: usize = 0;
        while i < n
            invariant
                n == args@.len(),
                all == args_seq(args@),
                i <= n,
                args_from(all, i as int, (bt_proxy@, listen@, db@, poll_ms)) == args_from(
                    all,
                    0,
                    default_args(),
                ),
            decreases n - i,
        {
            let a = args[i].as_str();
            assert(a@ == all[i as int]);
            let is_bt = str_eq(a, "--bt-proxy");
            let is_listen = str_eq(a, "--listen");
            let is_db = str_eq(a, "--db");
            let is_poll = str_eq(a, "--poll-ms");
            if is_bt || is_listen || is_db || is_poll {
                if i + 1 >= n {
                    return Args { bt_proxy, listen, db, poll_ms };
                }
                let v = args[i + 1].as_str();
                assert(v@ == all[i + 1]);
                if is_bt {
                    bt_proxy = owned(v);
                } else if is_listen {
                    listen = owned(v);
                } else if is_db {
                    db = owned(v);
                } else {
                    poll_ms = match parse_u64(v) {
                        Some(p) => p,
                        None => 100,
                    };
                }
                i += 2;
            } else {
                i += 1;
            }
        }
        Args { bt_proxy, listen, db, poll_ms }
    }
}

/// Without options the monitor only talks on the loopback interface: the
/// adapter proxy and the dashboard server are both on `127.0.0.1`.
pub proof fn law_defaults_on_loopback()
    ensures
        starts_with(default_args().0, "127.0.0.1:"@),
        starts_with(default_args().1, "127.0.0.1:"@),
{
    reveal_strlit("127.0.0.1:35000");
    reveal_strlit("127.0.0.1:8080");
    reveal_strlit("127.0.0.1:");
    assert(default_args().0.subrange(0, 10) =~= "127.0.0.1:"@);
    assert(default_args().1.subrange(0, 10) =~= "127.0.0.1:"@);
}

} // verus!
