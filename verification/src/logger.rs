//! The log of the core's output shown in the UI: at most a hundred and one
//! lines, with a line that repeats the last one folded into it.
use vstd::prelude::*;
use std::collections::VecDeque;
use crate::help::{decimal_value, is_unsigned_decimal, parse_unsigned, unsigned_digits};
use crate::text::{
    append_chars, append_str, chars_equal, chars_of, decimal_text, find_str, slice_chars, split_once_str,
    string_of, string_views, u64_text,
};

verus! {

/// The number of lines kept before the oldest is dropped.
pub const LOGS_QUEUE_LEN: usize = 100;

/// `s` without the leading repetitions of `[x`.
pub open spec fn trim_start_counter(s: Seq<char>) -> Seq<char>
    decreases s.len(),
{
    if s.len() >= 2 && s[0] == '[' && s[1] == 'x' {
        trim_start_counter(s.skip(2))
    } else {
        s
    }
}

/// `s` without its trailing `]`s.
pub open spec fn trim_end_brackets(s: Seq<char>) -> Seq<char>
    decreases s.len(),
{
    if s.len() > 0 && s.last() == ']' {
        trim_end_brackets(s.drop_last())
    } else {
        s
    }
}

/// The repeat count that a counter prefix such as `[x3]` holds, read as a `u64`,
/// or 1 when it holds none.
pub open spec fn counter_value(prefix: Seq<char>) -> int {
    let digits = trim_end_brackets(trim_start_counter(prefix));
    if is_unsigned_decimal(digits, u64::MAX as int) {
        decimal_value(unsigned_digits(digits))
    } else {
        1
    }
}

/// The last line is `<prefix>] <text>` with a prefix that starts with `[x` and
/// ends with `]`: the count it carries, plus one (wrapping past the largest
/// `u64`).
pub open spec fn next_count(last: Seq<char>, text: Seq<char>) -> Option<int> {
    match split_once_str(last, "] "@) {
        Some((prefix, msg)) => if msg == text && prefix.len() >= 2 && prefix[0] == '[' && prefix[1] == 'x'
            && prefix.last() == ']' {
            Some((counter_value(prefix) + 1) % 0x1_0000_0000_0000_0000)
        } else {
            None
        },
        None => None,
    }
}

/// `text` added to the end of the log, the oldest line dropped first when more
/// than a hundred are kept.
pub open spec fn append_capped(logs: Seq<Seq<char>>, text: Seq<char>) -> Seq<Seq<char>> {
    if logs.len() > 100 {
        logs.drop_first().push(text)
    } else {
        logs.push(text)
    }
}

/// The log after `text` arrives: a line equal to the last one turns the last into
/// `[x2] text`; a last line of the form `[x<n>]] text` counts one more; anything
/// else is appended.
pub open spec fn set_log_spec(logs: Seq<Seq<char>>, text: Seq<char>) -> Seq<Seq<char>> {
    if logs.len() > 0 && logs.last() == text {
        logs.update(logs.len() - 1, "[x2] "@ + text)
    } else if logs.len() > 0 && next_count(logs.last(), text) is Some {
        logs.update(
            logs.len() - 1,
            "[x"@ + decimal_text(next_count(logs.last(), text)->0 as nat) + "] "@ + text,
        )
    } else {
        append_capped(logs, text)
    }
}

/// The log of the core's output.
pub struct Logger {
    log_data: VecDeque<String>,
}

impl Logger {
    /// The lines of the log, oldest first.
    pub closed spec fn logs(&self) -> Seq<Seq<char>> {
        string_views(self.log_data@)
    }

    /// An empty log.
    pub fn new() -> (r: Logger)
        ensures
            r.logs() == Seq::<Seq<char>>::empty(),
    {
        let r = Logger { log_data: VecDeque::with_capacity(110) };
        assert(r.logs() =~= Seq::<Seq<char>>::empty());
        r
    }

    /// A copy of the lines of the log.
    pub fn get_log(&self) -> (r: Vec<String>)
        ensures
            string_views(r@) == self.logs(),
    {
        broadcast use vstd::std_specs::vecdeque::group_vec_dequeue_axioms;

        let mut out: Vec<String> = Vec::new();
        let mut i: usize = 0;
        while i < self.log_data.len()
            invariant
                i <= self.log_data@.len(),
                string_views(out@) == string_views(self.log_data@).take(i as int),
            decreases self.log_data.len() - i,
        {
            let line = self.log_data[i].clone();
            assert(line@ == self.log_data@[i as int]@);
            let ghost before = out@;
            out.push(line);
            assert(string_views(out@) =~= string_views(before).push(line@));
            assert(string_views(out@) =~= string_views(self.log_data@).take(i + 1));
            i = i + 1;
        }
        assert(string_views(self.log_data@).take(self.log_data@.len() as int) =~= string_views(self.log_data@));
        out
    }

    /// Replaces the last line.
    fn replace_last(&mut self, line: String)
        requires
            old(self).log_data@.len() > 0,
        ensures
            final(self).logs() == old(self).logs().update(old(self).logs().len() - 1, line@),
    {
        let ghost before = self.log_data@;
        let _ = self.log_data.pop_back();
        self.log_data.push_back(line);
        assert(string_views(self.log_data@) =~= string_views(before).update(before.len() - 1, line@));
    }

    /// The count for `text` when the last line carries a repeat counter for it.
    fn next_count_exec(last: &String, text: &String) -> (r: Option<u64>)
        ensures
            match r {
                Some(c) => next_count(last@, text@) == Some(c as int),
                None => next_count(last@, text@) is None,
            },
    {
        let lc = chars_of(last.as_str());
        let sep = chars_of("] ");
        proof {
            reveal_strlit("] ");
        }
        let i = match find_str(&lc, &sep) {
            Some(i) => i,
            None => return None,
        };
        assert(sep@.len() == 2);
        let n = lc.len();
        assert(i + 2 <= n);
        let prefix = slice_chars(&lc, 0, i);
        let msg = slice_chars(&lc, i + 2, n);
        assert(prefix@ =~= lc@.take(i as int));
        assert(msg@ =~= lc@.skip(i + 2));
        if !chars_equal(&msg, &chars_of(text.as_str())) {
            return None;
        }
        if !(prefix.len() >= 2 && prefix[0] == '[' && prefix[1] == 'x' && prefix[prefix.len() - 1] == ']') {
            return None;
        }
        let mut a: usize = 0;
        assert(prefix@.skip(0) =~= prefix@);
        while prefix.len() - a >= 2 && prefix[a] == '[' && prefix[a + 1] == 'x'
            invariant
                a <= prefix@.len(),
                trim_start_counter(prefix@.skip(a as int)) == trim_start_counter(prefix@),
            decreases prefix.len() - a,
        {
            assert(prefix@.skip(a as int).skip(2) =~= prefix@.skip(a + 2));
            a = a + 2;
        }
        assert(trim_start_counter(prefix@.skip(a as int)) == prefix@.skip(a as int));
        let mut b = prefix.len();
        while b > a && prefix[b - 1] == ']'
            invariant
                a <= b <= prefix@.len(),
                trim_end_brackets(prefix@.subrange(a as int, b as int)) == trim_end_brackets(prefix@.skip(a as int)),
            decreases b - a,
        {
            assert(prefix@.subrange(a as int, b as int).drop_last() =~= prefix@.subrange(a as int, b - 1));
            b = b - 1;
        }
        assert(prefix@.subrange(a as int, prefix@.len() as int) =~= prefix@.skip(a as int));
        let digits = slice_chars(&prefix, a, b);
        assert(trim_end_brackets(digits@) == digits@);
        let value = match parse_unsigned(&digits, u64::MAX) {
            Some(v) => v,
            None => 1,
        };
        Some(value.wrapping_add(1))
    }

    /// Adds a line of the core's output, as [`set_log_spec`] states.
    pub fn set_log(&mut self, text: String)
        ensures
            final(self).logs() == set_log_spec(old(self).logs(), text@),
    {
        broadcast use vstd::std_specs::vecdeque::group_vec_dequeue_axioms;

        let n = self.log_data.len();
        if n > 0 {
            let ghost logs = self.logs();
            assert(logs.last() == self.log_data@[n - 1]@);
            let same = self.log_data[n - 1].eq(&text);
            if same {
                let mut line = chars_of("[x2] ");
                append_str(&mut line, text.as_str());
                self.replace_last(string_of(line.as_slice()));
                return;
            }
            match Self::next_count_exec(&self.log_data[n - 1], &text) {
                Some(count) => {
                    let mut line = chars_of("[x");
                    append_chars(&mut line, &u64_text(count));
                    append_str(&mut line, "] ");
                    append_str(&mut line, text.as_str());
                    self.replace_last(string_of(line.as_slice()));
                    return;
                },
                None => {},
            }
        }
        let ghost before = self.log_data@;
        if n > LOGS_QUEUE_LEN {
            let _ = self.log_data.pop_front();
        }
        self.log_data.push_back(text);
        proof {
            if n > 100 {
                assert(string_views(self.log_data@) =~= string_views(before).drop_first().push(text@));
            } else {
                assert(string_views(self.log_data@) =~= string_views(before).push(text@));
            }
        }
    }

    /// Empties the log.
    pub fn clear_log(&mut self)
        ensures
            final(self).logs() == Seq::<Seq<char>>::empty(),
    {
        self.log_data.clear();
        assert(self.logs() =~= Seq::<Seq<char>>::empty());
    }
}

/// The log never holds more than a hundred and one lines: adding a line to a log
/// within that bound keeps it within the bound.
pub proof fn set_log_keeps_bound(logs: Seq<Seq<char>>, text: Seq<char>)
    requires
        logs.len() <= 101,
    ensures
        set_log_spec(logs, text).len() <= 101,
{
}

/// A line that repeats the last one is folded into it: the log keeps its length
/// and its last line becomes `[x2] ` followed by the line.
pub proof fn set_log_folds_repeat(logs: Seq<Seq<char>>, text: Seq<char>)
    requires
        logs.len() > 0,
        logs.last() == text,
    ensures
        set_log_spec(logs, text).len() == logs.len(),
        set_log_spec(logs, text).last() == "[x2] "@ + text,
        set_log_spec(logs, text).drop_last() == logs.drop_last(),
{
    assert(set_log_spec(logs, text).drop_last() =~= logs.drop_last());
}

/// Adding a line twice in a row leaves it once at the end, folded into
/// `[x2] ` followed by the line, when the log did not end with it.
pub proof fn set_log_twice_folds(logs: Seq<Seq<char>>, text: Seq<char>)
    requires
        logs.len() == 0 || (logs.last() != text && next_count(logs.last(), text) is None),
    ensures
        set_log_spec(set_log_spec(logs, text), text).last() == "[x2] "@ + text,
        set_log_spec(set_log_spec(logs, text), text).len() == append_capped(logs, text).len(),
{
}

} // verus!
