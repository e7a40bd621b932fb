//! Which failures are tried again, how often, and after how long.

use crate::config::{retry_backoff_secs, s3_max_attempts};
use crate::error::{
    any_occurs, chain_messages, heard, is_own_refusal, is_retryable_chain, is_retryable_error,
    named_refusals_are_final, names_server_error, retryable_markers, server_error_at, FsError,
};
use crate::laws::numbers::plain_digit;
use crate::retry::{RetryOutcome, RetryQueue, RetrySource, RetryUpload};
use crate::text::{join, lower, lower_char, occurs_in, texts};
use vstd::prelude::*;

verus! {

/// `a` is `b`, but for the case of letters.
pub open spec fn same_letters(a: Seq<char>, b: Seq<char>) -> bool {
    &&& a.len() == b.len()
    &&& forall|i: int|
        0 <= i < a.len() ==> {
            ||| #[trigger] a[i] == b[i]
            ||| 'A' <= a[i] && a[i] <= 'Z' && a[i] as int + 32 == b[i] as int
        }
}

/// `word` stands in `s` at `at`, in capitals or not.
pub open spec fn says(s: Seq<char>, word: Seq<char>, at: int) -> bool {
    &&& 0 <= at
    &&& at + word.len() <= s.len()
    &&& same_letters(s.subrange(at, at + word.len()), word)
}

/// The words of failures that pass by themselves.
pub open spec fn passing_word(word: Seq<char>) -> bool {
    ||| word == "timeout"@
    ||| word == "timed out"@
    ||| word == "timedout"@
    ||| word == "connect"@
    ||| word == "network"@
    ||| word == "reset by peer"@
    ||| word == "broken pipe"@
    ||| word == "unreachable"@
    ||| word == "slow down"@
    ||| word == "throttl"@
    ||| word == "too many requests"@
    ||| word == "request rate limit"@
    ||| word == "service unavailable"@
    ||| word == "internal server error"@
}

/// A blank and a status of 500 to 599 stand in `s` at `at`.
pub open spec fn says_status(s: Seq<char>, at: int) -> bool {
    &&& 0 <= at
    &&& at + 4 <= s.len()
    &&& s[at] == ' '
    &&& s[at + 1] == '5'
    &&& plain_digit(s[at + 2])
    &&& plain_digit(s[at + 3])
    &&& at + 4 < s.len() ==> !plain_digit(s[at + 4])
}

/// The mount itself refuses something, and names a number or a name in it.
pub open spec fn refuses(e: FsError) -> bool {
    match e {
        FsError::DirtyTooLarge { .. } => true,
        FsError::UploadTooLarge { .. } => true,
        FsError::UploadBudgetHeld { .. } => true,
        FsError::StreamBudgetHeld { .. } => true,
        FsError::StreamTooLong { .. } => true,
        FsError::RenameSourceMissing { .. } => true,
        FsError::DirRenameLimit { .. } => true,
        FsError::TrashDirInvalid { .. } => true,
        FsError::BucketMissing { .. } => true,
        _ => false,
    }
}

proof fn stands_in_join(v: Seq<Seq<char>>, sep: char, i: int) -> (p: int)
    requires
        0 <= i < v.len(),
    ensures
        0 <= p,
        p + v[i].len() <= join(v, sep).len(),
        join(v, sep).subrange(p, p + v[i].len()) == v[i],
        p + v[i].len() < join(v, sep).len() ==> join(v, sep)[p + v[i].len()] == sep,
    decreases v.len(),
{
    let t = join(v, sep);
    if v.len() == 1 {
        assert(t.subrange(0, v[0].len() as int) =~= v[0]);
        0
    } else if i == v.len() - 1 {
        let p = t.len() - v[i].len();
        assert(t.subrange(p, p + v[i].len()) =~= v[i]);
        p
    } else {
        let head = v.drop_last();
        let p = stands_in_join(head, sep, i);
        let u = join(head, sep);
        assert(head[i] == v[i]);
        assert(t =~= u + seq![sep] + v.last());
        assert(t.subrange(p, p + v[i].len()) =~= u.subrange(p, p + v[i].len()));
        p
    }
}

proof fn lowered_word(s: Seq<char>, word: Seq<char>, at: int)
    requires
        says(s, word, at),
        forall|i: int| 0 <= i < word.len() ==> !('A' <= #[trigger] word[i] && word[i] <= 'Z'),
    ensures
        lower(s).subrange(at, at + word.len()) == word,
{
    let part = s.subrange(at, at + word.len());
    let low = lower(s).subrange(at, at + word.len());
    assert forall|i: int| 0 <= i < word.len() implies #[trigger] low[i] == word[i] by {
        assert(part[i] == s[at + i]);
        assert(low[i] == lower_char(s[at + i]));
    }
    assert(low =~= word);
}

proof fn small_words(word: Seq<char>)
    requires
        passing_word(word),
    ensures
        forall|i: int| 0 <= i < word.len() ==> !('A' <= #[trigger] word[i] && word[i] <= 'Z'),
        exists|k: int| 0 <= k < retryable_markers().len() && #[trigger] retryable_markers()[k] == word,
{
    reveal_strlit("timeout");
    reveal_strlit("timed out");
    reveal_strlit("timedout");
    reveal_strlit("connect");
    reveal_strlit("network");
    reveal_strlit("reset by peer");
    reveal_strlit("broken pipe");
    reveal_strlit("unreachable");
    reveal_strlit("slow down");
    reveal_strlit("throttl");
    reveal_strlit("too many requests");
    reveal_strlit("request rate limit");
    reveal_strlit("service unavailable");
    reveal_strlit("internal server error");
    let l = retryable_markers();
    assert(l[0] == "timeout"@ && l[1] == "timed out"@ && l[2] == "timedout"@ && l[3] == "connect"@);
    assert(l[5] == "network"@ && l[6] == "reset by peer"@ && l[7] == "broken pipe"@);
    assert(l[8] == "unreachable"@ && l[9] == "slow down"@ && l[10] == "throttl"@);
    assert(l[11] == "too many requests"@ && l[12] == "request rate limit"@);
    assert(l[13] == "service unavailable"@ && l[14] == "internal server error"@);
}

/// A failure is tried again where any message of its chain, but a refusal of
/// the mount itself, says one of the words of failures that pass, in capitals
/// or not, or gives the status of a server error.
pub proof fn passing_failures_are_tried_again(
    messages: &Vec<String>,
    r: bool,
    i: int,
    word: Seq<char>,
    at: int,
)
    requires
        call_ensures(is_retryable_chain, (messages,), r),
        0 <= i < messages@.len(),
        forall|e: FsError| refuses(e) ==> #[trigger] e.text() != messages@[i]@,
        (passing_word(word) && says(messages@[i]@, word, at)) || says_status(messages@[i]@, at),
    ensures
        r,
{
    let all = texts(messages@);
    let m = messages@[i]@;
    assert(!is_own_refusal(m)) by {
        if is_own_refusal(m) {
            let e = choose|e: FsError| e.is_named_refusal() && #[trigger] e.text() == m;
            assert(refuses(e));
        }
    }
    let v = heard(all);
    assert(v[i] == m);
    let p = stands_in_join(v, ' ', i);
    let t = join(v, ' ');
    let low = lower(t);
    let part = t.subrange(p, p + m.len());
    assert(part == m);
    if passing_word(word) && says(m, word, at) {
        small_words(word);
        assert(t.subrange(p + at, p + at + word.len()) =~= m.subrange(at, at + word.len()));
        lowered_word(t, word, p + at);
        let k = choose|k: int|
            0 <= k < retryable_markers().len() && #[trigger] retryable_markers()[k] == word;
        assert(low.subrange(p + at, p + at + retryable_markers()[k].len()) == word);
        assert(occurs_in(retryable_markers()[k], low));
        assert(any_occurs(retryable_markers(), low));
    } else {
        assert(t[p + at] == m[at] && t[p + at + 1] == m[at + 1]);
        assert(t[p + at + 2] == m[at + 2] && t[p + at + 3] == m[at + 3]);
        if at + 4 < m.len() {
            assert(t[p + at + 4] == m[at + 4]);
        }
        assert(server_error_at(low, p + at)) by {
            assert(low[p + at] == lower_char(t[p + at]));
            assert(low[p + at + 1] == lower_char(t[p + at + 1]));
            assert(low[p + at + 2] == lower_char(t[p + at + 2]));
            assert(low[p + at + 3] == lower_char(t[p + at + 3]));
            if p + at + 4 < t.len() {
                assert(low[p + at + 4] == lower_char(t[p + at + 4]));
            }
        }
        assert(names_server_error(low));
    }
}

/// A failure of one message is tried again only where the message says one of
/// those words or gives such a status, and never where it is a refusal of the
/// mount itself.
pub proof fn only_passing_failures_are_tried_again(messages: &Vec<String>, r: bool)
    requires
        call_ensures(is_retryable_chain, (messages,), r),
        messages@.len() == 1,
    ensures
        r ==> (exists|word: Seq<char>, at: int| #[trigger]
            says(messages@[0]@, word, at) && passing_word(word)) || (exists|at: int| #[trigger]
            says_status(messages@[0]@, at)),
        forall|e: FsError| refuses(e) && messages@[0]@ == #[trigger] e.text() ==> !r,
{
    let m = messages@[0]@;
    let all = texts(messages@);
    assert(all =~= seq![m]);
    assert forall|e: FsError| refuses(e) && m == #[trigger] e.text() implies !r by {
        named_refusals_are_final(e);
    }
    if r && !is_own_refusal(m) {
        let v = heard(all);
        assert(v =~= seq![m]);
        let low = lower(m);
        assert(join(v, ' ') == m);
        if any_occurs(retryable_markers(), low) {
            let l = retryable_markers();
            let k = choose|k: int| 0 <= k < l.len() && occurs_in(#[trigger] l[k], low);
            let at = choose|at: int|
                0 <= at && at + l[k].len() <= low.len() && #[trigger] low.subrange(
                    at,
                    at + l[k].len(),
                ) == l[k];
            reveal_strlit("connect");
            reveal_strlit("connection");
            let word = if k == 4 {
                "connect"@
            } else {
                l[k]
            };
            assert(passing_word(word));
            let part = m.subrange(at, at + word.len());
            assert forall|i: int| 0 <= i < word.len() implies {
                ||| #[trigger] part[i] == word[i]
                ||| 'A' <= part[i] && part[i] <= 'Z' && part[i] as int + 32 == word[i] as int
            } by {
                assert(low.subrange(at, at + l[k].len())[i] == l[k][i]);
                assert(low[at + i] == lower_char(m[at + i]));
                assert(l[k][i] == word[i]);
            }
            assert(says(m, word, at));
        } else {
            let at = choose|at: int| #[trigger] server_error_at(low, at);
            assert(low[at] == lower_char(m[at]) && low[at + 1] == lower_char(m[at + 1]));
            assert(low[at + 2] == lower_char(m[at + 2]) && low[at + 3] == lower_char(m[at + 3]));
            if at + 4 < m.len() {
                assert(low[at + 4] == lower_char(m[at + 4]));
            }
            assert(says_status(m, at));
        }
    } else if r {
        let e = choose|e: FsError| e.is_named_refusal() && #[trigger] e.text() == m;
        named_refusals_are_final(e);
    }
}

/// An error is tried again exactly where the messages of its chain say so, all
/// of them.
pub proof fn errors_are_judged_by_their_whole_chain(
    e: &anyhow::Error,
    r: bool,
    messages: &Vec<String>,
    s: bool,
)
    requires
        call_ensures(is_retryable_error, (e,), r),
        call_ensures(is_retryable_chain, (messages,), s),
        texts(messages@) == chain_messages(*e),
    ensures
        r == s,
{
}

/// The first wait is five seconds, each further one three times as long, up to
/// the sixth, and no longer after that.
pub proof fn waits_triple_up_to_a_bound(a: u32, wait: u64, b: u32, longer: u64)
    requires
        call_ensures(retry_backoff_secs, (a,), wait),
        call_ensures(retry_backoff_secs, (b,), longer),
        b == a + 1,
    ensures
        a == 0 ==> wait == 5,
        a < 5 ==> longer == 3 * wait,
        a >= 5 ==> longer == wait,
{
    reveal_with_fuel(crate::config::backoff_secs, 7);
}

/// One try more than there are retries is made.
pub proof fn one_try_more_than_retries(retries: u32, r: u32)
    requires
        call_ensures(s3_max_attempts, (retries,), r),
    ensures
        retries < u32::MAX ==> r == retries + 1,
        r >= 1,
{
}

/// An upload that failed keeps its bytes and its path, and is tried again up
/// to the tenth failure; one that succeeded gives its file away.
pub proof fn failed_uploads_lose_nothing(item: RetryUpload, succeeded: bool, r: RetryOutcome)
    requires
        item.attempts < u32::MAX,
        call_ensures(RetryUpload::tried, (item, succeeded), r),
    ensures
        succeeded ==> r is Succeeded && r->spool == item.spool,
        !succeeded ==> {
            let left = match r {
                RetryOutcome::Again { item } => item,
                RetryOutcome::GaveUp { item } => item,
                RetryOutcome::Succeeded { .. } => item,
            };
            &&& !(r is Succeeded)
            &&& left.attempts == item.attempts + 1
            &&& left.path == item.path
            &&& left.buf == item.buf
            &&& left.spool == item.spool
        },
        !succeeded ==> (r is GaveUp <==> item.attempts + 1 >= 10),
{
}

/// Uploads that wait come out in the order in which they went in.
pub proof fn waiting_uploads_keep_their_order(
    queue: &mut RetryQueue,
    item: RetryUpload,
    again: &mut RetryQueue,
    r: Option<RetryUpload>,
)
    requires
        call_ensures(RetryQueue::push_back, (queue, item), ()),
        *old(again) == *final(queue),
        call_ensures(RetryQueue::pop_front, (again,), r),
    ensures
        r is Some,
        old(queue).waiting@.len() == 0 ==> r == Some(item) && final(again).waiting@.len() == 0,
        old(queue).waiting@.len() > 0 ==> r == Some(old(queue).waiting@[0])
            && final(again).waiting@ == old(queue).waiting@.skip(1) + seq![item],
{
    let w = old(queue).waiting@;
    if w.len() > 0 {
        assert(w.push(item).drop_first() =~= w.skip(1) + seq![item]);
    }
}

/// The bytes of a failed upload are taken from its file where it has one, and
/// otherwise from memory.
pub proof fn bytes_come_from_the_file_first(item: &RetryUpload, r: RetrySource)
    requires
        call_ensures(RetryUpload::source, (item,), r),
    ensures
        r is File <==> item.spool is Some,
        r is Memory <==> item.spool is None && item.buf is Some,
{
}

/// Before the next try of an upload the wait is that of its failures so far.
pub proof fn uploads_wait_by_their_failures(item: &RetryUpload, r: u64, wait: u64)
    requires
        call_ensures(RetryUpload::wait_secs, (item,), r),
        call_ensures(retry_backoff_secs, (item.attempts,), wait),
    ensures
        r == wait,
{
}

} // verus!
