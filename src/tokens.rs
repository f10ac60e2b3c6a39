use vstd::prelude::*;
use vstd::slice::{slice_subrange, slice_to_vec};
use crate::error::ScheduleError;
use crate::text::{chars_of, index_of_from, lemma_next_index_of_bounds, next_index_of, string_of};

verus! {

/// The number of characters in one coded token.
pub const TOKEN_WIDTH: usize = 5;

/// The second comma-separated field of a line, if the line has one.
pub open spec fn coded_run(line: Seq<char>) -> Option<Seq<char>> {
    let i = next_index_of(line, ',', 0);
    if i >= line.len() {
        None
    } else {
        Some(line.subrange(i + 1, next_index_of(line, ',', i + 1)))
    }
}

/// The `k`-th token of a run: a four-character date code and a bin code.
pub open spec fn token_at(run: Seq<char>, k: int) -> (Seq<char>, char) {
    (run.subrange(5 * k, 5 * k + 4), run[5 * k + 4])
}

/// The tokens that a schedule line holds, in order.
pub open spec fn tokens_of_line(line: Seq<char>) -> Result<Seq<(Seq<char>, char)>, ScheduleError> {
    match coded_run(line) {
        None => Err(ScheduleError::MalformedLine),
        Some(run) => if run.len() % 5 != 0 {
            Err(ScheduleError::MalformedLength)
        } else {
            Ok(Seq::new(run.len() / 5, |k: int| token_at(run, k)))
        },
    }
}

pub open spec fn token_view(p: (String, char)) -> (Seq<char>, char) {
    (p.0@, p.1)
}

pub open spec fn tokens_view(r: Result<Vec<(String, char)>, ScheduleError>) -> Result<Seq<(Seq<char>, char)>, ScheduleError> {
    match r {
        Ok(v) => Ok(v@.map_values(|p: (String, char)| token_view(p))),
        Err(e) => Err(e),
    }
}

/// A coded run whose length is a multiple of five yields one token per five
/// characters, the `k`-th made of characters `5k` to `5k + 4` of the run; a
/// run of any other length is refused as malformed.
pub proof fn lemma_run_tokens(line: Seq<char>)
    requires
        coded_run(line) is Some,
    ensures
        ({
            let run = coded_run(line)->Some_0;
            &&& run.len() % 5 == 0 ==> (tokens_of_line(line) matches Ok(toks) && toks.len() == run.len() / 5
                && forall|k: int| 0 <= k < toks.len() ==> (#[trigger] toks[k]).0.push(toks[k].1) == run.subrange(5 * k, 5 * k + 5))
            &&& run.len() % 5 != 0 ==> tokens_of_line(line) == Err::<Seq<(Seq<char>, char)>, ScheduleError>(ScheduleError::MalformedLength)
        }),
{
    let run = coded_run(line)->Some_0;
    if run.len() % 5 == 0 {
        let toks = tokens_of_line(line)->Ok_0;
        assert forall|k: int| 0 <= k < toks.len() implies (#[trigger] toks[k]).0.push(toks[k].1) == run.subrange(5 * k, 5 * k + 5) by {
            assert(toks[k] == token_at(run, k));
            assert(run.subrange(5 * k, 5 * k + 4).push(run[5 * k + 4]) =~= run.subrange(5 * k, 5 * k + 5));
        }
    }
}

/// Reads one token from the start of `chunk`: its first four characters are
/// the date code and the fifth is the bin code.
pub fn get_coded_pair(chunk: &[char]) -> (r: Result<(String, char), ScheduleError>)
    ensures
        r is Ok <==> chunk@.len() >= 5,
        r matches Ok(p) ==> p.0@ == chunk@.subrange(0, 4) && p.1 == chunk@[4],
        r matches Err(e) ==> e == ScheduleError::MalformedLength,
{
    if chunk.len() < TOKEN_WIDTH {
        return Err(ScheduleError::MalformedLength);
    }
    let coded_date = string_of(chunk, 0, 4);
    Ok((coded_date, chunk[4]))
}

/// Cuts the second comma-separated field of `chars` into tokens.
fn pairs_of_chars(chars: &Vec<char>) -> (r: Result<Vec<(String, char)>, ScheduleError>)
    ensures
        tokens_view(r) == tokens_of_line(chars@),
{
    let n = chars.len();
    let first = index_of_from(chars.as_slice(), ',', 0);
    if first == n {
        return Err(ScheduleError::MalformedLine);
    }
    let start = first + 1;
    let end = index_of_from(chars.as_slice(), ',', start);
    let ghost run = chars@.subrange(start as int, end as int);
    assert(coded_run(chars@) == Some(run));
    let run_len = end - start;
    if run_len % TOKEN_WIDTH != 0 {
        return Err(ScheduleError::MalformedLength);
    }
    let count = run_len / TOKEN_WIDTH;
    let mut out: Vec<(String, char)> = Vec::new();
    let mut k: usize = 0;
    while k < count
        invariant
            0 <= k <= count,
            count * 5 == run_len,
            start + run_len == end,
            end <= chars@.len(),
            run == chars@.subrange(start as int, end as int),
            out@.len() == k,
            forall|m: int| 0 <= m < k ==> #[trigger] token_view(out@[m]) == token_at(run, m),
        decreases count - k,
    {
        let at = start + TOKEN_WIDTH * k;
        let chunk = slice_subrange(chars.as_slice(), at, at + TOKEN_WIDTH);
        match get_coded_pair(chunk) {
            Ok(p) => {
                assert(p.0@ =~= run.subrange(5 * k, 5 * k + 4));
                out.push(p);
            },
            Err(e) => {
                return Err(e);
            },
        }
        k = k + 1;
    }
    assert(out@.map_values(|p: (String, char)| token_view(p)) =~= Seq::new(run.len() / 5, |m: int| token_at(run, m)));
    Ok(out)
}

/// Cuts the coded run of a schedule line (its second comma-separated field)
/// into five-character tokens, in order.
pub fn get_coded_pairs(coded_data: String) -> (r: Result<Vec<(String, char)>, ScheduleError>)
    ensures
        tokens_view(r) == tokens_of_line(coded_data@),
{
    let chars = chars_of(coded_data.as_str());
    pairs_of_chars(&chars)
}

/// The line that starts at `start`, without its line ending (`\n`, or `\r\n`).
pub open spec fn line_at(text: Seq<char>, start: int) -> Seq<char> {
    let end = next_index_of(text, '\n', start);
    let raw = text.subrange(start, end);
    if end < text.len() && raw.len() > 0 && raw.last() == '\r' {
        raw.drop_last()
    } else {
        raw
    }
}

/// The first line, from the one at `start` on, that begins with `key`.
pub open spec fn find_line(text: Seq<char>, key: Seq<char>, start: int) -> Option<Seq<char>>
    decreases text.len() + 1 - start
    via find_line_decreases
{
    if start < 0 || start >= text.len() {
        None
    } else if key.is_prefix_of(line_at(text, start)) {
        Some(line_at(text, start))
    } else {
        find_line(text, key, next_index_of(text, '\n', start) + 1)
    }
}

#[via_fn]
proof fn find_line_decreases(text: Seq<char>, key: Seq<char>, start: int) {
    if 0 <= start < text.len() {
        lemma_next_index_of_bounds(text, '\n', start);
    }
}

/// The tokens of the first line of `text` that begins with `key`.
pub open spec fn tokens_of_text(text: Seq<char>, key: Seq<char>) -> Result<Seq<(Seq<char>, char)>, ScheduleError> {
    match find_line(text, key, 0) {
        None => Err(ScheduleError::NotFound),
        Some(line) => tokens_of_line(line),
    }
}

/// Whether `text[from..to]` begins with `key`.
fn has_prefix(text: &Vec<char>, from: usize, to: usize, key: &Vec<char>) -> (r: bool)
    requires
        from <= to <= text@.len(),
    ensures
        r == key@.is_prefix_of(text@.subrange(from as int, to as int)),
{
    if key.len() > to - from {
        return false;
    }
    let mut i: usize = 0;
    while i < key.len()
        invariant
            key@.len() <= to - from,
            from <= to <= text@.len(),
            0 <= i <= key@.len(),
            forall|j: int| 0 <= j < i ==> key@[j] == text@[from + j],
        decreases key@.len() - i,
    {
        if key[i] != text[from + i] {
            assert(key@[i as int] != text@.subrange(from as int, to as int).subrange(0, key@.len() as int)[i as int]);
            return false;
        }
        i = i + 1;
    }
    assert(key@ =~= text@.subrange(from as int, to as int).subrange(0, key@.len() as int));
    true
}

/// Finds the first line of the schedule that begins with `address_code` and
/// cuts its coded run into tokens.
pub fn get_coded_schedule(text_result: String, address_code: &str) -> (r: Result<Vec<(String, char)>, ScheduleError>)
    ensures
        tokens_view(r) == tokens_of_text(text_result@, address_code@),
{
    let text = chars_of(text_result.as_str());
    let key = chars_of(address_code);
    let n = text.len();
    let mut start: usize = 0;
    while start < n
        invariant
            start <= n,
            n == text@.len(),
            text@ == text_result@,
            key@ == address_code@,
            find_line(text@, key@, 0) == find_line(text@, key@, start as int),
        decreases n - start,
    {
        let end = index_of_from(text.as_slice(), '\n', start);
        let mut stop = end;
        if end < n && end > start && text[end - 1] == '\r' {
            stop = end - 1;
        }
        assert(line_at(text@, start as int) =~= text@.subrange(start as int, stop as int));
        if has_prefix(&text, start, stop, &key) {
            let line = slice_to_vec(slice_subrange(text.as_slice(), start, stop));
            return pairs_of_chars(&line);
        }
        if end == n {
            assert(find_line(text@, key@, n + 1) is None);
            return Err(ScheduleError::NotFound);
        }
        start = end + 1;
    }
    Err(ScheduleError::NotFound)
}

} // verus!
