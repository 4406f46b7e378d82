use crate::text::{
    chars_of, has_prefix, is_space, is_text, is_whitespace, parse_unsigned, parse_unsigned_in,
    starts_with, trim_chars, trimmed,
};
use vstd::prelude::*;

verus! {

/// How much memory there is and how much of it is used, in bytes.
#[derive(Debug, Clone, Copy, PartialEq, Eq, Structural)]
pub struct MemorySnapshot {
    pub total_bytes: u64,
    pub used_bytes: u64,
    pub process_rss_bytes: u64,
}

/// The number of characters at the start of the text that are no white
/// space.
pub open spec fn word_len(s: Seq<char>) -> nat
    decreases s.len(),
{
    if s.len() == 0 || is_space(s[0]) {
        0
    } else {
        1 + word_len(s.skip(1))
    }
}

pub proof fn lemma_word_len_bound(s: Seq<char>)
    ensures
        word_len(s) <= s.len(),
        s.len() > 0 && !is_space(s[0]) ==> word_len(s) > 0,
    decreases s.len(),
{
    if s.len() > 0 && !is_space(s[0]) {
        lemma_word_len_bound(s.skip(1));
    }
}

/// The words of the text: the longest runs of characters that are no
/// white space, in order.
pub open spec fn words(s: Seq<char>) -> Seq<Seq<char>>
    decreases s.len(),
    via words_decreases
{
    if s.len() == 0 {
        Seq::empty()
    } else if is_space(s[0]) {
        words(s.skip(1))
    } else {
        seq![s.take(word_len(s) as int)] + words(s.skip(word_len(s) as int))
    }
}

#[via_fn]
proof fn words_decreases(s: Seq<char>) {
    if s.len() > 0 && !is_space(s[0]) {
        lemma_word_len_bound(s);
    }
}

/// The number of kilobytes that a line of the form `Name:  123 kB` gives:
/// its second word, read as a number.
pub open spec fn spec_extract_kb(line: Seq<char>) -> Option<u64> {
    if words(line).len() >= 2 {
        match parse_unsigned(words(line)[1], u64::MAX as nat) {
            Some(n) => Some(n as u64),
            None => None,
        }
    } else {
        None
    }
}

/// The place of the word that begins at `from`, and the place behind it.
fn word_end(v: &Vec<char>, from: usize) -> (end: usize)
    requires
        from <= v.len(),
    ensures
        end == from + word_len(v@.skip(from as int)),
        end <= v.len(),
{
    let mut end: usize = from;
    proof {
        lemma_word_len_bound(v@.skip(from as int));
    }
    while end < v.len() && !is_whitespace(v[end])
        invariant
            from <= end <= v.len(),
            word_len(v@.skip(from as int)) == (end - from) + word_len(v@.skip(end as int)),
        decreases v.len() - end,
    {
        proof {
            assert(v@.skip(end as int)[0] == v@[end as int]);
            assert(v@.skip(end as int).skip(1) =~= v@.skip(end + 1));
        }
        end = end + 1;
    }
    proof {
        if end < v.len() {
            assert(v@.skip(end as int)[0] == v@[end as int]);
        }
    }
    end
}

/// The places of the first two words of the text, if it has two.
fn second_word(v: &Vec<char>) -> (r: Option<(usize, usize)>)
    ensures
        r.is_some() == (words(v@).len() >= 2),
        r.is_some() ==> r.unwrap().0 <= r.unwrap().1 <= v.len() && v@.subrange(
            r.unwrap().0 as int,
            r.unwrap().1 as int,
        ) == words(v@)[1],
{
    let mut i: usize = 0;
    let mut seen: usize = 0;
    proof {
        assert(v@.skip(0) =~= v@);
    }
    while i < v.len()
        invariant
            i <= v.len(),
            seen <= 1,
            seen == 0 ==> words(v@) == words(v@.skip(i as int)),
            words(v@).len() == seen + words(v@.skip(i as int)).len(),
            seen == 1 ==> words(v@.skip(i as int)).len() >= 1 ==> words(v@)[1] == words(
                v@.skip(i as int),
            )[0],
        decreases v.len() - i,
    {
        let ghost rest = v@.skip(i as int);
        proof {
            assert(rest[0] == v@[i as int]);
        }
        if is_whitespace(v[i]) {
            proof {
                assert(rest.skip(1) =~= v@.skip(i + 1));
                assert(words(rest) == words(rest.skip(1)));
            }
            i = i + 1;
        } else {
            let end = word_end(v, i);
            proof {
                lemma_word_len_bound(rest);
                assert(rest.skip(word_len(rest) as int) =~= v@.skip(end as int));
                assert(rest.take(word_len(rest) as int) =~= v@.subrange(i as int, end as int));
                let tail = words(v@.skip(end as int));
                assert(words(rest) == seq![rest.take(word_len(rest) as int)] + tail);
                assert(words(rest)[0] == rest.take(word_len(rest) as int));
                assert(words(rest).len() == 1 + tail.len());
                if seen == 0 && tail.len() >= 1 {
                    assert(words(rest)[1] == tail[0]);
                }
            }
            if seen == 1 {
                return Some((i, end));
            }
            seen = seen + 1;
            i = end;
        }
    }
    None
}

/// Reads the number of kilobytes from a line such as `MemTotal:  123 kB`.
pub fn extract_kb(line: &str) -> (r: Option<u64>)
    ensures
        r == spec_extract_kb(line@),
{
    let v = chars_of(line);
    extract_kb_chars(&v)
}

fn extract_kb_chars(v: &Vec<char>) -> (r: Option<u64>)
    ensures
        r == spec_extract_kb(v@),
{
    match second_word(v) {
        Some((from, to)) => match parse_unsigned_in(v, from, to, u64::MAX as u128) {
            Some(n) => Some(n as u64),
            None => None,
        },
        None => None,
    }
}

/// The number of characters before the first line feed of the text.
pub open spec fn line_len(s: Seq<char>) -> nat
    decreases s.len(),
{
    if s.len() == 0 || s[0] == '\n' {
        0
    } else {
        1 + line_len(s.skip(1))
    }
}

pub proof fn lemma_line_len_bound(s: Seq<char>)
    ensures
        line_len(s) <= s.len(),
    decreases s.len(),
{
    if s.len() > 0 && s[0] != '\n' {
        lemma_line_len_bound(s.skip(1));
    }
}

/// The lines of the text: what stands between its line feeds, in order.
/// A text that ends with a line feed has no empty last line. A carriage
/// return at the end of a line remains.
pub open spec fn lines(s: Seq<char>) -> Seq<Seq<char>>
    decreases s.len(),
    via lines_decreases
{
    if s.len() == 0 {
        Seq::empty()
    } else if line_len(s) == s.len() {
        seq![s]
    } else {
        seq![s.take(line_len(s) as int)] + lines(s.skip((line_len(s) + 1) as int))
    }
}

#[via_fn]
proof fn lines_decreases(s: Seq<char>) {
    lemma_line_len_bound(s);
}

/// The places of the lines of the text.
fn split_lines(v: &Vec<char>) -> (r: Vec<(usize, usize)>)
    ensures
        r@.len() == lines(v@).len(),
        forall|i: int|
            0 <= i < r@.len() ==> (#[trigger] r@[i]).0 <= r@[i].1 <= v.len() && v@.subrange(
                r@[i].0 as int,
                r@[i].1 as int,
            ) == lines(v@)[i],
{
    let mut out: Vec<(usize, usize)> = Vec::new();
    let mut i: usize = 0;
    proof {
        assert(v@.skip(0) =~= v@);
    }
    while i < v.len()
        invariant
            i <= v.len(),
            lines(v@).len() == out@.len() + lines(v@.skip(i as int)).len(),
            forall|k: int|
                0 <= k < out@.len() ==> (#[trigger] out@[k]).0 <= out@[k].1 <= v.len() && v@.subrange(
                    out@[k].0 as int,
                    out@[k].1 as int,
                ) == lines(v@)[k],
            forall|k: int|
                0 <= k < lines(v@.skip(i as int)).len() ==> lines(v@)[out@.len() + k] == (
                #[trigger] lines(v@.skip(i as int))[k]),
        decreases v.len() - i,
    {
        let ghost rest = v@.skip(i as int);
        let mut end: usize = i;
        proof {
            lemma_line_len_bound(rest);
        }
        while end < v.len() && v[end] != '\n'
            invariant
                i <= end <= v.len(),
                rest == v@.skip(i as int),
                line_len(rest) == (end - i) + line_len(v@.skip(end as int)),
            decreases v.len() - end,
        {
            proof {
                assert(v@.skip(end as int)[0] == v@[end as int]);
                assert(v@.skip(end as int).skip(1) =~= v@.skip(end + 1));
            }
            end = end + 1;
        }
        proof {
            if end < v.len() {
                assert(v@.skip(end as int)[0] == v@[end as int]);
            }
            assert(line_len(rest) == end - i);
            assert(rest.take(line_len(rest) as int) =~= v@.subrange(i as int, end as int));
            assert(lines(rest)[0] == v@.subrange(i as int, end as int)) by {
                if line_len(rest) == rest.len() {
                    assert(rest.take(rest.len() as int) =~= rest);
                }
            }
            assert(lines(v@)[out@.len() as int] == lines(rest)[0]);
            if end < v.len() {
                assert(rest.skip((line_len(rest) + 1) as int) =~= v@.skip(end + 1));
                let tail = lines(v@.skip(end + 1));
                assert(lines(rest) == seq![rest.take(line_len(rest) as int)] + tail);
                assert forall|k: int| 0 <= k < tail.len() implies lines(v@)[out@.len() + 1 + k] == (
                #[trigger] tail[k]) by {
                    assert(lines(rest)[k + 1] == tail[k]);
                }
            } else {
                assert(lines(rest) == seq![rest]);
            }
        }
        out.push((i, end));
        if end < v.len() {
            i = end + 1;
        } else {
            i = end;
            proof {
                assert(v@.skip(v.len() as int).len() == 0);
            }
        }
    }
    out
}

/// The characters of `v` from `from` up to `to`.
fn slice_chars(v: &Vec<char>, from: usize, to: usize) -> (r: Vec<char>)
    requires
        from <= to <= v.len(),
    ensures
        r@ == v@.subrange(from as int, to as int),
{
    let mut out: Vec<char> = Vec::new();
    let mut i: usize = from;
    while i < to
        invariant
            from <= i <= to <= v.len(),
            out@ == v@.subrange(from as int, i as int),
        decreases to - i,
    {
        proof {
            assert(v@.subrange(from as int, i + 1) =~= v@.subrange(from as int, i as int).push(
                v@[i as int],
            ));
        }
        out.push(v[i]);
        i = i + 1;
    }
    out
}

/// The kilobytes of `MemTotal` and of `MemAvailable` that the first `n`
/// lines give, and whether the search is over: each line that begins with
/// one of the two names sets the value for that name, and the search ends
/// once both values are known.
pub open spec fn scan_meminfo(all: Seq<Seq<char>>, n: nat) -> (Option<u64>, Option<u64>, bool)
    recommends
        n <= all.len(),
    decreases n,
{
    if n == 0 {
        (None, None, false)
    } else {
        let (total, available, done) = scan_meminfo(all, (n - 1) as nat);
        if done {
            (total, available, true)
        } else {
            let line = all[n - 1];
            let total2 = if starts_with(line, "MemTotal:"@) {
                spec_extract_kb(line)
            } else {
                total
            };
            let available2 = if !starts_with(line, "MemTotal:"@) && starts_with(
                line,
                "MemAvailable:"@,
            ) {
                spec_extract_kb(line)
            } else {
                available
            };
            (total2, available2, total2.is_some() && available2.is_some())
        }
    }
}

/// The bytes of memory in total and the bytes available that a text of
/// the form of `/proc/meminfo` gives, if it gives both and they fit.
pub open spec fn spec_meminfo(content: Seq<char>) -> Option<(u64, u64)> {
    let (total, available, _) = scan_meminfo(lines(content), lines(content).len());
    if total.is_some() && available.is_some() && total.unwrap() * 1024 <= u64::MAX
        && available.unwrap() * 1024 <= u64::MAX {
        Some(((total.unwrap() * 1024) as u64, (available.unwrap() * 1024) as u64))
    } else {
        None
    }
}

/// Reads the total and the available memory from a text of the form of
/// `/proc/meminfo`.
pub fn read_proc_meminfo(content: &str) -> (r: Option<(u64, u64)>)
    ensures
        r == spec_meminfo(content@),
{
    let v = chars_of(content);
    let places = split_lines(&v);
    let ghost all = lines(v@);
    let mut total_kb: Option<u64> = None;
    let mut available_kb: Option<u64> = None;
    let mut done = false;
    let mut i: usize = 0;
    while i < places.len() && !done
        invariant
            i <= places.len(),
            all == lines(v@),
            places@.len() == all.len(),
            forall|k: int|
                0 <= k < places@.len() ==> (#[trigger] places@[k]).0 <= places@[k].1 <= v.len()
                    && v@.subrange(places@[k].0 as int, places@[k].1 as int) == all[k],
            (total_kb, available_kb, done) == scan_meminfo(all, i as nat),
        decreases places.len() - i,
    {
        let line = slice_chars(&v, places[i].0, places[i].1);
        proof {
            assert(line@ == all[i as int]);
        }
        if has_prefix(&line, "MemTotal:") {
            total_kb = extract_kb_chars(&line);
        } else if has_prefix(&line, "MemAvailable:") {
            available_kb = extract_kb_chars(&line);
        }
        if total_kb.is_some() && available_kb.is_some() {
            done = true;
        }
        i = i + 1;
    }
    proof {
        lemma_scan_done_stays(all, i as nat, all.len());
    }
    let total = match total_kb {
        Some(kb) => match kb.checked_mul(1024) {
            Some(b) => b,
            None => {
                return None;
            },
        },
        None => {
            return None;
        },
    };
    let available = match available_kb {
        Some(kb) => match kb.checked_mul(1024) {
            Some(b) => b,
            None => {
                return None;
            },
        },
        None => {
            return None;
        },
    };
    Some((total, available))
}

/// Once the search is over, more lines change nothing.
pub proof fn lemma_scan_done_stays(all: Seq<Seq<char>>, n: nat, m: nat)
    requires
        n <= m <= all.len(),
        scan_meminfo(all, n).2 || n == m,
    ensures
        scan_meminfo(all, m) == scan_meminfo(all, n),
    decreases m - n,
{
    if n < m {
        lemma_scan_done_stays(all, n, (m - 1) as nat);
    }
}

/// The resident set size in bytes that the first `n` lines give: that of
/// the first line that begins with `VmRSS:` and holds a number that fits.
pub open spec fn scan_rss(all: Seq<Seq<char>>, n: nat) -> Option<u64>
    recommends
        n <= all.len(),
    decreases n,
{
    if n == 0 {
        None
    } else {
        let before = scan_rss(all, (n - 1) as nat);
        if before.is_some() {
            before
        } else {
            let line = all[n - 1];
            if starts_with(line, "VmRSS:"@) && spec_extract_kb(line).is_some() && spec_extract_kb(
                line,
            ).unwrap() * 1024 <= u64::MAX {
                Some((spec_extract_kb(line).unwrap() * 1024) as u64)
            } else {
                None
            }
        }
    }
}

pub proof fn lemma_scan_rss_stays(all: Seq<Seq<char>>, n: nat, m: nat)
    requires
        n <= m <= all.len(),
        scan_rss(all, n).is_some(),
    ensures
        scan_rss(all, m) == scan_rss(all, n),
    decreases m - n,
{
    if n < m {
        lemma_scan_rss_stays(all, n, (m - 1) as nat);
    }
}

/// Reads the resident set size of the process from a text of the form of
/// `/proc/self/status`.
pub fn read_process_rss_bytes(content: &str) -> (r: Option<u64>)
    ensures
        r == scan_rss(lines(content@), lines(content@).len()),
{
    let v = chars_of(content);
    let places = split_lines(&v);
    let ghost all = lines(v@);
    let mut i: usize = 0;
    while i < places.len()
        invariant
            i <= places.len(),
            all == lines(v@),
            places@.len() == all.len(),
            forall|k: int|
                0 <= k < places@.len() ==> (#[trigger] places@[k]).0 <= places@[k].1 <= v.len()
                    && v@.subrange(places@[k].0 as int, places@[k].1 as int) == all[k],
            scan_rss(all, i as nat).is_none(),
            v@ == content@,
        decreases places.len() - i,
    {
        let line = slice_chars(&v, places[i].0, places[i].1);
        proof {
            assert(line@ == all[i as int]);
        }
        if has_prefix(&line, "VmRSS:") {
            match extract_kb_chars(&line) {
                Some(kb) => match kb.checked_mul(1024) {
                    Some(bytes) => {
                        proof {
                            assert(scan_rss(all, (i + 1) as nat) == Some(bytes));
                            lemma_scan_rss_stays(all, (i + 1) as nat, all.len());
                        }
                        return Some(bytes);
                    },
                    None => {},
                },
                None => {},
            }
        }
        i = i + 1;
    }
    None
}

/// What a text that should hold one number gives.
pub open spec fn spec_number(text: Seq<char>) -> Option<u64> {
    match parse_unsigned(trimmed(text), u64::MAX as nat) {
        Some(n) => Some(n as u64),
        None => None,
    }
}

fn read_number(text: &str) -> (r: Option<u64>)
    ensures
        r == spec_number(text@),
{
    let v = trim_chars(&chars_of(text));
    proof {
        assert(v@.subrange(0, v.len() as int) =~= v@);
    }
    match parse_unsigned_in(&v, 0, v.len(), u64::MAX as u128) {
        Some(n) => Some(n as u64),
        None => None,
    }
}

/// The resident set size that a status text gives, and zero where there
/// is no text or it gives none.
pub open spec fn spec_rss(status: Option<Seq<char>>) -> u64 {
    match status {
        Some(text) => match scan_rss(lines(text), lines(text).len()) {
            Some(b) => b,
            None => 0,
        },
        None => 0,
    }
}

/// The snapshot that the memory files of the control group give. The
/// limit `max` means that there is none: the total is then that of the
/// machine.
pub open spec fn spec_cgroup(
    limit: Seq<char>,
    current: Seq<char>,
    meminfo: Option<Seq<char>>,
    status: Option<Seq<char>>,
) -> Option<MemorySnapshot> {
    match spec_number(current) {
        None => None,
        Some(used) => {
            let stated: Option<u64> = if trimmed(limit) == "max"@ {
                Some(0u64)
            } else {
                spec_number(limit)
            };
            match stated {
                None => None,
                Some(total) => {
                    let total_bytes: Option<u64> = if total == 0 {
                        match meminfo {
                            Some(text) => match spec_meminfo(text) {
                                Some(pair) => Some(pair.0),
                                None => None,
                            },
                            None => None,
                        }
                    } else {
                        Some(total)
                    };
                    match total_bytes {
                        None => None,
                        Some(t) => Some(
                            MemorySnapshot {
                                total_bytes: t,
                                used_bytes: used,
                                process_rss_bytes: spec_rss(status),
                            },
                        ),
                    }
                },
            }
        },
    }
}

/// The view of a text that may be missing.
pub open spec fn text_of(text: Option<String>) -> Option<Seq<char>> {
    match text {
        Some(t) => Some(t@),
        None => None,
    }
}

fn rss_or_zero(status: &Option<String>) -> (r: u64)
    ensures
        r == spec_rss(text_of(*status)),
{
    match status {
        Some(text) => match read_process_rss_bytes(text.as_str()) {
            Some(b) => b,
            None => 0,
        },
        None => 0,
    }
}

/// Reads the memory of the control group from the texts of `memory.max`
/// and `memory.current`.
pub fn read_cgroup_v2_memory(
    limit: &str,
    current: &str,
    meminfo: &Option<String>,
    status: &Option<String>,
) -> (r: Option<MemorySnapshot>)
    ensures
        r == spec_cgroup(limit@, current@, text_of(*meminfo), text_of(*status)),
{
    let current_bytes = match read_number(current) {
        Some(n) => n,
        None => {
            return None;
        },
    };
    let limit_text = trim_chars(&chars_of(limit));
    let total_bytes: u64 = if is_text(&limit_text, "max") {
        0
    } else {
        match read_number(limit) {
            Some(n) => n,
            None => {
                return None;
            },
        }
    };
    let total_bytes = if total_bytes == 0 {
        match meminfo {
            Some(text) => match read_proc_meminfo(text.as_str()) {
                Some(pair) => pair.0,
                None => {
                    return None;
                },
            },
            None => {
                return None;
            },
        }
    } else {
        total_bytes
    };
    let rss = rss_or_zero(status);
    Some(MemorySnapshot { total_bytes, used_bytes: current_bytes, process_rss_bytes: rss })
}

/// The snapshot that the texts give: that of the control group if its
/// two files could be read and give one, else that of the machine, where
/// what is not available counts as used.
pub open spec fn spec_snapshot(
    limit: Option<Seq<char>>,
    current: Option<Seq<char>>,
    meminfo: Option<Seq<char>>,
    status: Option<Seq<char>>,
) -> Option<MemorySnapshot> {
    let cgroup = if limit.is_some() && current.is_some() {
        spec_cgroup(limit.unwrap(), current.unwrap(), meminfo, status)
    } else {
        None
    };
    if cgroup.is_some() {
        cgroup
    } else {
        match meminfo {
            None => None,
            Some(text) => match spec_meminfo(text) {
                None => None,
                Some((total, available)) => Some(
                    MemorySnapshot {
                        total_bytes: total,
                        used_bytes: if total >= available {
                            (total - available) as u64
                        } else {
                            0
                        },
                        process_rss_bytes: spec_rss(status),
                    },
                ),
            },
        }
    }
}

/// Makes the memory snapshot from the texts of the files that hold the
/// figures: `memory.max` and `memory.current` of the control group,
/// `/proc/meminfo` and `/proc/self/status`. A file that could not be read
/// is given as `None`.
pub fn read_memory_snapshot(
    limit: &Option<String>,
    current: &Option<String>,
    meminfo: &Option<String>,
    status: &Option<String>,
) -> (r: Option<MemorySnapshot>)
    ensures
        r == spec_snapshot(
            text_of(*limit),
            text_of(*current),
            text_of(*meminfo),
            text_of(*status),
        ),
{
    match (limit, current) {
        (Some(l), Some(c)) => {
            match read_cgroup_v2_memory(l.as_str(), c.as_str(), meminfo, status) {
                Some(cg) => {
                    return Some(cg);
                },
                None => {},
            }
        },
        _ => {},
    }
    let (total, available) = match meminfo {
        Some(text) => match read_proc_meminfo(text.as_str()) {
            Some(pair) => pair,
            None => {
                return None;
            },
        },
        None => {
            return None;
        },
    };
    let rss = rss_or_zero(status);
    let used = total.saturating_sub(available);
    Some(MemorySnapshot { total_bytes: total, used_bytes: used, process_rss_bytes: rss })
}

} // verus!
