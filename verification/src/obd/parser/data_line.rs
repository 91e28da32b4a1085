//! Data lines as the ELM327 writes them — bytes in upper-case hexadecimal
//! separated by single spaces, then `\r\n` and the `>` prompt — and the law
//! that such an answer reads back as exactly the bytes it carries.

use crate::obd::parser::{classify_spec, hex_byte, hex_bytes, hex_digit_value, response_text};
use crate::obd::ObdFault;
use crate::text::{
    all_ascii, contains, find_line, hex_upper_char, is_ascii_char, is_white, lemma_sep_end_at,
    lemma_sep_end_bounds, lemma_tokens_shift, line_passes, occurs_at, sep_end,
    skip_nonwhite_from, skip_white_back, skip_white_from, tokens, tokens_from, trim, upper_seq,
    utf8_len, LineTest,
};
use vstd::prelude::*;

verus! {

/// One byte as two upper-case hexadecimal digits.
pub open spec fn hex_pair(b: u8) -> Seq<char> {
    seq![hex_upper_char((b / 16) as nat), hex_upper_char((b % 16) as nat)]
}

/// The bytes as space-separated hexadecimal pairs.
pub open spec fn hex_line(bs: Seq<u8>) -> Seq<char>
    decreases bs.len(),
{
    if bs.len() == 0 {
        Seq::empty()
    } else if bs.len() == 1 {
        hex_pair(bs[0])
    } else {
        hex_pair(bs[0]) + seq![' '] + hex_line(bs.drop_first())
    }
}

/// The adapter's answer carrying `bs`: the data line, `\r\n`, the prompt.
pub open spec fn elm_answer(bs: Seq<u8>) -> Seq<char> {
    hex_line(bs) + seq!['\r', '\n', '>']
}

pub open spec fn is_hex_upper(c: char) -> bool {
    ('0' <= c <= '9') || ('A' <= c <= 'F')
}

proof fn lemma_hex_upper_char(d: nat)
    requires
        d < 16,
    ensures
        is_hex_upper(hex_upper_char(d)),
        hex_digit_value(hex_upper_char(d)) == Some(d as u8),
        !is_white(hex_upper_char(d)),
{
}

/// Every character of a data line is a hex digit or a space.
proof fn lemma_hex_line_chars(bs: Seq<u8>)
    ensures
        forall|i: int|
            0 <= i < hex_line(bs).len() ==> is_hex_upper(#[trigger] hex_line(bs)[i])
                || hex_line(bs)[i] == ' ',
        bs.len() > 0 ==> hex_line(bs).len() >= 2 && is_hex_upper(hex_line(bs)[0]) && is_hex_upper(
            hex_line(bs).last(),
        ),
        bs.len() == 0 ==> hex_line(bs).len() == 0,
    decreases bs.len(),
{
    if bs.len() > 0 {
        lemma_hex_upper_char((bs[0] / 16) as nat);
        lemma_hex_upper_char((bs[0] % 16) as nat);
        if bs.len() >= 2 {
            lemma_hex_line_chars(bs.drop_first());
            let h = hex_line(bs);
            let r = hex_line(bs.drop_first());
            assert forall|i: int| 0 <= i < h.len() implies is_hex_upper(#[trigger] h[i]) || h[i]
                == ' ' by {
                if i >= 3 {
                    assert(h[i] == r[i - 3]);
                }
            }
            assert(h.last() == r.last());
        }
    }
}

/// The tokens of a data line are the hexadecimal pairs.
proof fn lemma_hex_line_tokens(bs: Seq<u8>)
    ensures
        tokens(hex_line(bs)) == bs.map_values(|b: u8| hex_pair(b)),
    decreases bs.len(),
{
    let s = hex_line(bs);
    if bs.len() == 0 {
        assert(tokens(s) =~= bs.map_values(|b: u8| hex_pair(b)));
    } else {
        let p = hex_pair(bs[0]);
        lemma_hex_upper_char((bs[0] / 16) as nat);
        lemma_hex_upper_char((bs[0] % 16) as nat);
        assert(skip_white_from(s, 0) == 0);
        if bs.len() == 1 {
            assert(skip_nonwhite_from(s, 2) == 2);
            assert(skip_nonwhite_from(s, 1) == 2);
            assert(skip_nonwhite_from(s, 0) == 2);
            assert(skip_white_from(s, 2) == 2);
            assert(tokens_from(s, 2).len() == 0);
            assert(s.subrange(0, 2) =~= p);
            assert(tokens(s) =~= bs.map_values(|b: u8| hex_pair(b)));
        } else {
            let rest = bs.drop_first();
            let r = hex_line(rest);
            let x = p + seq![' '];
            assert(s =~= x + r);
            assert(s[2] == ' ');
            assert(skip_nonwhite_from(s, 2) == 2);
            assert(skip_nonwhite_from(s, 1) == 2);
            assert(skip_nonwhite_from(s, 0) == 2);
            assert(s.subrange(0, 2) =~= p);
            lemma_tokens_shift(x, r, 0);
            assert(skip_white_from(s, 2) == skip_white_from(s, 3));
            assert(tokens_from(s, 2) == tokens_from(s, 3));
            lemma_hex_line_tokens(rest);
            assert(tokens(s) == seq![p] + tokens(r));
            assert(tokens(s) =~= bs.map_values(|b: u8| hex_pair(b)));
        }
    }
}

/// Each pair reads back as its byte.
proof fn lemma_hex_pairs_read_back(bs: Seq<u8>)
    ensures
        hex_bytes(bs.map_values(|b: u8| hex_pair(b))) == Some(bs),
    decreases bs.len(),
{
    let ts = bs.map_values(|b: u8| hex_pair(b));
    if bs.len() > 0 {
        assert(ts.drop_last() =~= bs.drop_last().map_values(|b: u8| hex_pair(b)));
        lemma_hex_pairs_read_back(bs.drop_last());
        let b = bs.last();
        let t = ts.last();
        assert(t == hex_pair(b));
        lemma_hex_upper_char((b / 16) as nat);
        lemma_hex_upper_char((b % 16) as nat);
        reveal_with_fuel(utf8_len, 3);
        assert(t.drop_last().drop_last() =~= Seq::<char>::empty());
        assert(utf8_len(t) == 2);
        assert(hex_byte(t) == Some(b));
        assert(bs.drop_last().push(b) =~= bs);
    } else {
        assert(bs =~= Seq::<u8>::empty());
    }
}

/// A text holding no character `pat[k]` does not contain `pat`.
proof fn lemma_missing_char(s: Seq<char>, pat: Seq<char>, k: int)
    requires
        0 <= k < pat.len(),
        forall|i: int| 0 <= i < s.len() ==> s[i] != pat[k],
    ensures
        !contains(s, pat),
{
    assert forall|i: int| !occurs_at(s, i, pat) by {
        if occurs_at(s, i, pat) {
            assert(s.subrange(i, i + pat.len())[k] == s[i + k]);
        }
    }
}

/// The data line is what the parser reads from the answer.
proof fn lemma_answer_text(bs: Seq<u8>)
    ensures
        response_text(elm_answer(bs)) == hex_line(bs),
{
    let h = hex_line(bs);
    let raw = elm_answer(bs);
    lemma_hex_line_chars(bs);
    let n = h.len() as int;
    assert(raw[n] == '\r');
    assert(raw[n + 1] == '\n');
    assert(raw[n + 2] == '>');
    assert forall|k: int| 0 <= k < n + 1 implies raw[k] != '\n' by {
        if k < n {
            assert(raw[k] == h[k]);
        }
    }
    lemma_sep_end_at(raw, 0, n + 1, '\n');
    let line = raw.subrange(0, n + 1);
    assert(line =~= h + seq!['\r']);
    assert(line[n] == '\r');
    if bs.len() > 0 {
        lemma_hex_upper_char((bs[0] / 16) as nat);
        assert(!is_white(line[0]));
        assert(skip_white_from(line, 0) == 0);
        assert(line[n - 1] == h.last());
        assert(!is_white(line[n - 1]));
        assert(skip_white_back(line, n) == n);
        assert(skip_white_back(line, n + 1) == n);
        assert(trim(line) =~= h);
        assert forall|i: int| 0 <= i < line.len() implies line[i] != seq!['>'][0] by {
            if i < n {
                assert(line[i] == h[i]);
            }
        }
        lemma_missing_char(line, seq!['>'], 0);
        assert(line_passes(LineTest::DataWithoutPrompt, line));
        assert(find_line(raw, 0, LineTest::DataWithoutPrompt) == Some(line));
    } else {
        assert(n == 0);
        assert(skip_white_from(line, 1) == 1);
        assert(skip_white_from(line, 0) == 1);
        assert(trim(line).len() == 0);
        assert(!line_passes(LineTest::DataWithoutPrompt, line));
        lemma_sep_end_at(raw, 2, 3, '\n');
        let l2 = raw.subrange(2, 3);
        assert(l2[0] == '>');
        assert(l2.subrange(0, 1) =~= seq!['>']);
        assert(occurs_at(l2, 0, seq!['>']));
        assert(!line_passes(LineTest::DataWithoutPrompt, l2));
        assert(find_line(raw, 4, LineTest::DataWithoutPrompt) is None);
        assert(find_line(raw, 2, LineTest::DataWithoutPrompt) is None);
        assert(find_line(raw, 0, LineTest::DataWithoutPrompt) is None);
        assert(response_text(raw) =~= h);
    }
}

/// What the adapter writes is what the parser reads: an answer carrying the
/// bytes `bs` as an ELM327 data line is ASCII, holds none of the adapter's
/// error words in any letter case, and parses to exactly `bs`.
pub proof fn law_data_line_reads_back(bs: Seq<u8>)
    ensures
        all_ascii(elm_answer(bs)),
        classify_spec(
            response_text(elm_answer(bs)),
            upper_seq(response_text(elm_answer(bs))),
        ) == Ok::<Seq<u8>, ObdFault>(bs),
{
    let h = hex_line(bs);
    let raw = elm_answer(bs);
    lemma_hex_line_chars(bs);
    assert forall|i: int| 0 <= i < raw.len() implies is_ascii_char(#[trigger] raw[i]) by {
        if i < h.len() {
            assert(raw[i] == h[i]);
        }
    }
    lemma_answer_text(bs);
    assert(upper_seq(h) =~= h);
    reveal_strlit("NO DATA");
    reveal_strlit("STOPPED");
    reveal_strlit("BUS INIT");
    reveal_strlit("ERROR");
    lemma_missing_char(h, "NO DATA"@, 0);
    lemma_missing_char(h, "STOPPED"@, 0);
    lemma_missing_char(h, "BUS INIT"@, 1);
    lemma_missing_char(h, "ERROR"@, 1);
    lemma_missing_char(h, seq!['?'], 0);
    lemma_hex_line_tokens(bs);
    lemma_hex_pairs_read_back(bs);
}

} // verus!
