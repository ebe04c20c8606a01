//! Per-player rate limiting and the filtering of player text.
use vstd::prelude::*;
use crate::config::RateLimitConfig;
use crate::game::has_id;
use crate::outside::{occurs_in, replace_all, replaced, text_contains, trim_text, trimmed};

verus! {

/// At most `max_actions` actions within a window of `window_secs` seconds,
/// the window opening at `last_action` (milliseconds).
#[derive(Debug, Clone, Copy, PartialEq, Eq, Structural)]
pub struct RateLimiter {
    pub last_action: i64,
    pub count: u32,
    pub window_secs: u64,
    pub max_actions: u32,
}

/// The window that opened at `last_ms` has closed at `now_ms`.
pub open spec fn window_closed(last_ms: i64, window_secs: u64, now_ms: i64) -> bool {
    now_ms - last_ms > window_secs * 1000
}

/// One action checked against `before` at `now_ms`: a closed window is
/// reopened at `now_ms` with the count cleared; the action is allowed, and
/// counted, while the count is below the limit.
pub open spec fn rate_checked(before: RateLimiter, now_ms: i64, allowed: bool, after: RateLimiter) -> bool {
    let reopened = window_closed(before.last_action, before.window_secs, now_ms);
    let count = if reopened {
        0
    } else {
        before.count as int
    };
    &&& allowed == (count < before.max_actions)
    &&& after.count == if allowed {
        count + 1
    } else {
        count
    }
    &&& after.last_action == if reopened {
        now_ms
    } else {
        before.last_action
    }
    &&& after.window_secs == before.window_secs
    &&& after.max_actions == before.max_actions
}

impl RateLimiter {
    /// A limiter whose window opens at `now_ms`, with no action counted.
    pub fn new(window_secs: u64, max_actions: u32, now_ms: i64) -> (r: RateLimiter)
        ensures
            r == (RateLimiter { last_action: now_ms, count: 0, window_secs, max_actions }),
    {
        RateLimiter { last_action: now_ms, count: 0, window_secs, max_actions }
    }

    /// Counts one action at `now_ms` if the limit allows it (see
    /// [`rate_checked`]).
    pub fn check(&mut self, now_ms: i64) -> (r: bool)
        ensures
            rate_checked(*old(self), now_ms, r, *final(self)),
    {
        if (now_ms as i128) - (self.last_action as i128) > (self.window_secs as i128) * 1000 {
            self.count = 0;
            self.last_action = now_ms;
        }
        if self.count >= self.max_actions {
            false
        } else {
            self.count = self.count + 1;
            true
        }
    }
}

/// Why player text was refused.
#[derive(Debug, Clone, Copy, PartialEq, Eq, Structural)]
pub enum InputProblem {
    TooLong,
    Empty,
    SensitiveWord,
    RateLimited,
}

/// `text` after replacing, one word after the other, every word of
/// `words` with `by`.
pub open spec fn filtered(text: Seq<char>, words: Seq<String>, by: Seq<char>) -> Seq<char>
    decreases words.len(),
{
    if words.len() == 0 {
        text
    } else {
        replaced(filtered(text, words.drop_last(), by), words.last()@, by)
    }
}

/// Some word of `words` occurs in `text`.
pub open spec fn mentions_any(text: Seq<char>, words: Seq<String>) -> bool {
    exists|i: int| 0 <= i < words.len() && occurs_in(text, (#[trigger] words[i])@)
}

/// Words masked in player text: the configured sensitive words, then the
/// custom ones, each replaced by `replacement`.
pub struct WordFilter {
    pub sensitive_words: Vec<String>,
    pub custom_words: Vec<String>,
    pub replacement: String,
}

fn replace_each(text: String, words: &Vec<String>, by: &String) -> (r: String)
    ensures
        r@ == filtered(text@, words@, by@),
{
    let mut out = text;
    let ghost start = out@;
    let mut i: usize = 0;
    while i < words.len()
        invariant
            i <= words@.len(),
            out@ == filtered(start, words@.subrange(0, i as int), by@),
        decreases words.len() - i,
    {
        proof {
            assert(words@.subrange(0, i + 1).drop_last() =~= words@.subrange(0, i as int));
        }
        out = replace_all(out.as_str(), words[i].as_str(), by.as_str());
        i = i + 1;
    }
    proof {
        assert(words@.subrange(0, words@.len() as int) =~= words@);
    }
    out
}

fn any_occurs(text: &String, words: &Vec<String>) -> (r: bool)
    ensures
        r == mentions_any(text@, words@),
{
    let mut i: usize = 0;
    while i < words.len()
        invariant
            i <= words@.len(),
            forall|j: int| 0 <= j < i ==> !occurs_in(text@, (#[trigger] words@[j])@),
        decreases words.len() - i,
    {
        if text_contains(text.as_str(), words[i].as_str()) {
            return true;
        }
        i = i + 1;
    }
    false
}

impl WordFilter {
    /// `text` with every sensitive and custom word masked.
    pub fn filter(&self, text: &String) -> (r: String)
        ensures
            r@ == filtered(
                filtered(text@, self.sensitive_words@, self.replacement@),
                self.custom_words@,
                self.replacement@,
            ),
    {
        let first = replace_each(text.clone(), &self.sensitive_words, &self.replacement);
        replace_each(first, &self.custom_words, &self.replacement)
    }

    /// Whether `text` holds a sensitive or custom word.
    pub fn contains_sensitive_words(&self, text: &String) -> (r: bool)
        ensures
            r == (mentions_any(text@, self.sensitive_words@) || mentions_any(
                text@,
                self.custom_words@,
            )),
    {
        any_occurs(text, &self.sensitive_words) || any_occurs(text, &self.custom_words)
    }

    /// Adds a custom word unless it is already there.
    pub fn add_custom_word(&mut self, word: String)
        ensures
            has_id(old(self).custom_words@, word@) ==> final(self).custom_words@ == old(
                self,
            ).custom_words@,
            !has_id(old(self).custom_words@, word@) ==> final(self).custom_words@ == old(
                self,
            ).custom_words@.push(word),
            final(self).sensitive_words == old(self).sensitive_words,
            final(self).replacement == old(self).replacement,
    {
        if crate::game::find_id(&self.custom_words, &word).is_none() {
            self.custom_words.push(word);
        }
    }

    /// Removes every custom word that reads `word`, keeping the others in
    /// order.
    pub fn remove_custom_word(&mut self, word: &String)
        ensures
            forall|x: Seq<char>| #[trigger] has_id(final(self).custom_words@, x) <==> has_id(
                old(self).custom_words@,
                x,
            ) && x != word@,
            final(self).sensitive_words == old(self).sensitive_words,
            final(self).replacement == old(self).replacement,
    {
        let mut kept: Vec<String> = Vec::new();
        let mut i: usize = 0;
        while i < self.custom_words.len()
            invariant
                i <= self.custom_words@.len(),
                self.custom_words == old(self).custom_words,
                self.sensitive_words == old(self).sensitive_words,
                self.replacement == old(self).replacement,
                forall|x: Seq<char>| #[trigger] has_id(kept@, x) <==> (x != word@ && exists|j: int|
                    0 <= j < i && (#[trigger] self.custom_words@[j])@ == x),
            decreases self.custom_words.len() - i,
        {
            if self.custom_words[i] != *word {
                let ghost before = kept@;
                kept.push(self.custom_words[i].clone());
                proof {
                    assert forall|x: Seq<char>| #[trigger] has_id(kept@, x) <==> (x != word@
                        && exists|j: int| 0 <= j < i + 1 && (#[trigger] self.custom_words@[j])@ == x) by {
                        if has_id(kept@, x) {
                            let k = choose|k: int| 0 <= k < kept@.len() && (#[trigger] kept@[k])@ == x;
                            if k < before.len() {
                                assert(kept@[k] == before[k]);
                                assert(has_id(before, x));
                            } else {
                                assert(self.custom_words@[i as int]@ == x);
                            }
                        }
                        if x != word@ && exists|j: int| 0 <= j < i + 1 && (#[trigger] self.custom_words@[j])@ == x {
                            let j = choose|j: int| 0 <= j < i + 1 && (#[trigger] self.custom_words@[j])@ == x;
                            if j < i {
                                assert(has_id(before, x));
                                let k = choose|k: int| 0 <= k < before.len() && (#[trigger] before[k])@ == x;
                                assert(kept@[k] == before[k]);
                            } else {
                                assert(kept@[kept@.len() - 1]@ == x);
                            }
                        }
                    }
                }
            } else {
                proof {
                    assert forall|x: Seq<char>| #[trigger] has_id(kept@, x) <==> (x != word@
                        && exists|j: int| 0 <= j < i + 1 && (#[trigger] self.custom_words@[j])@ == x) by {
                        if x != word@ && exists|j: int| 0 <= j < i + 1 && (#[trigger] self.custom_words@[j])@ == x {
                            let j = choose|j: int| 0 <= j < i + 1 && (#[trigger] self.custom_words@[j])@ == x;
                            assert(j < i);
                        }
                    }
                }
            }
            i = i + 1;
        }
        proof {
            assert forall|x: Seq<char>| #[trigger] has_id(kept@, x) <==> has_id(old(self).custom_words@, x)
                && x != word@ by {
                if has_id(old(self).custom_words@, x) && x != word@ {
                    let j = choose|j: int| 0 <= j < old(self).custom_words@.len() && (#[trigger] old(self).custom_words@[j])@ == x;
                    assert(self.custom_words@[j]@ == x);
                }
            }
        }
        self.custom_words = kept;
    }

    /// A copy of the custom words.
    pub fn get_custom_words(&self) -> (r: Vec<String>)
        ensures
            r@ == self.custom_words@,
    {
        let mut out: Vec<String> = Vec::new();
        let mut i: usize = 0;
        while i < self.custom_words.len()
            invariant
                i <= self.custom_words@.len(),
                out@ =~= self.custom_words@.subrange(0, i as int),
            decreases self.custom_words.len() - i,
        {
            out.push(self.custom_words[i].clone());
            i = i + 1;
        }
        out
    }

    /// Checks player text: at most `max_length` bytes, not blank, and free
    /// of sensitive and custom words, checked in that order.
    pub fn validate_input(&self, text: &String, max_length: usize) -> (r: Result<(), InputProblem>)
        ensures
            r == if vstd::utf8::encode_utf8(text@).len() as usize > max_length {
                Err::<(), InputProblem>(InputProblem::TooLong)
            } else if trimmed(text@).len() == 0 {
                Err(InputProblem::Empty)
            } else if mentions_any(text@, self.sensitive_words@) || mentions_any(
                text@,
                self.custom_words@,
            ) {
                Err(InputProblem::SensitiveWord)
            } else {
                Ok(())
            },
    {
        if text.as_str().len() > max_length {
            return Err(InputProblem::TooLong);
        }
        if trim_text(text.as_str()).is_empty() {
            return Err(InputProblem::Empty);
        }
        if self.contains_sensitive_words(text) {
            return Err(InputProblem::SensitiveWord);
        }
        Ok(())
    }
}

/// The window (seconds) and limit that apply to an action type: the
/// describe and vote limits by name, the default limit otherwise.
pub open spec fn limits_for(config: RateLimitConfig, action: Seq<char>) -> (u64, u32) {
    if action == "describe"@ {
        (config.describe_window, config.describe_max_actions)
    } else if action == "vote"@ {
        (config.vote_window, config.vote_max_actions)
    } else {
        (config.default_window, config.default_max_actions)
    }
}

/// Some limiter in `limits` belongs to `id`.
pub open spec fn has_limiter(limits: Seq<(String, RateLimiter)>, id: Seq<char>) -> bool {
    exists|i: int| 0 <= i < limits.len() && (#[trigger] limits[i]).0@ == id
}

/// Rate limits per player, and the word filter.
pub struct Security {
    pub rate_limits: Vec<(String, RateLimiter)>,
    pub word_filter: WordFilter,
    pub config: RateLimitConfig,
}

impl Security {
    /// Each player has at most one limiter.
    pub open spec fn wf(&self) -> bool {
        forall|i: int, j: int|
            0 <= i < self.rate_limits@.len() && 0 <= j < self.rate_limits@.len() && i != j
                ==> (#[trigger] self.rate_limits@[i]).0@ != (#[trigger] self.rate_limits@[j]).0@
    }

    /// No limiter yet.
    pub fn new(config: RateLimitConfig, word_filter: WordFilter) -> (r: Security)
        ensures
            r.wf(),
            r.rate_limits@.len() == 0,
            r.config == config,
    {
        Security { rate_limits: Vec::new(), word_filter, config }
    }

    /// Rate-limits `player_id`'s action of type `action_type` at `now_ms`.
    /// A player seen for the first time gets a limiter for that action's
    /// window and limit, and this first action is let through uncounted;
    /// after that every action is checked against the player's limiter.
    pub fn check_rate_limit(&mut self, player_id: &String, action_type: &String, now_ms: i64) -> (r: Result<(), InputProblem>)
        requires
            old(self).wf(),
        ensures
            final(self).wf(),
            final(self).config == old(self).config,
            !has_limiter(old(self).rate_limits@, player_id@) ==> {
                let (window, max) = limits_for(old(self).config, action_type@);
                &&& r == Ok::<(), InputProblem>(())
                &&& final(self).rate_limits@ == old(self).rate_limits@.push(
                    (*player_id, RateLimiter { last_action: now_ms, count: 0, window_secs: window, max_actions: max }),
                )
            },
            has_limiter(old(self).rate_limits@, player_id@) ==> exists|k: int, after: RateLimiter|
                0 <= k < old(self).rate_limits@.len() && old(self).rate_limits@[k].0@ == player_id@
                    && rate_checked(old(self).rate_limits@[k].1, now_ms, r is Ok, after)
                    && final(self).rate_limits@ == old(self).rate_limits@.update(
                    k,
                    (old(self).rate_limits@[k].0, after),
                ) && (r is Err ==> r == Err::<(), InputProblem>(InputProblem::RateLimited)),
    {
        let mut i: usize = 0;
        while i < self.rate_limits.len()
            invariant
                *self == *old(self),
                old(self).wf(),
                i <= self.rate_limits@.len(),
                forall|j: int| 0 <= j < i ==> (#[trigger] self.rate_limits@[j]).0@ != player_id@,
            decreases self.rate_limits.len() - i,
        {
            if self.rate_limits[i].0 == *player_id {
                let mut limiter = self.rate_limits[i].1;
                let allowed = limiter.check(now_ms);
                let key = self.rate_limits[i].0.clone();
                let ghost before = self.rate_limits@;
                self.rate_limits.set(i, (key, limiter));
                proof {
                    let rs = self.rate_limits@;
                    assert(rs == before.update(i as int, (before[i as int].0, limiter)));
                    assert forall|a: int, b: int|
                        0 <= a < rs.len() && 0 <= b < rs.len() && a != b implies (#[trigger] rs[a]).0@
                        != (#[trigger] rs[b]).0@ by {
                        assert(rs[a].0 == before[a].0 && rs[b].0 == before[b].0);
                    }
                }
                return if allowed {
                    Ok(())
                } else {
                    Err(InputProblem::RateLimited)
                };
            }
            i = i + 1;
        }
        let (window, max) = if *action_type == String::from_str("describe") {
            (self.config.describe_window, self.config.describe_max_actions)
        } else if *action_type == String::from_str("vote") {
            (self.config.vote_window, self.config.vote_max_actions)
        } else {
            (self.config.default_window, self.config.default_max_actions)
        };
        let ghost before = self.rate_limits@;
        self.rate_limits.push((player_id.clone(), RateLimiter::new(window, max, now_ms)));
        proof {
            let rs = self.rate_limits@;
            assert forall|a: int, b: int|
                0 <= a < rs.len() && 0 <= b < rs.len() && a != b implies (#[trigger] rs[a]).0@
                != (#[trigger] rs[b]).0@ by {
                if a == rs.len() - 1 {
                    assert(rs[b] == before[b]);
                } else if b == rs.len() - 1 {
                    assert(rs[a] == before[a]);
                } else {
                    assert(rs[a] == before[a] && rs[b] == before[b]);
                }
            }
        }
        Ok(())
    }

    /// Checks player text with the word filter (see
    /// [`WordFilter::validate_input`]).
    pub fn validate_input(&self, text: &String, max_length: usize) -> (r: Result<(), InputProblem>)
        ensures
            r == if vstd::utf8::encode_utf8(text@).len() as usize > max_length {
                Err::<(), InputProblem>(InputProblem::TooLong)
            } else if trimmed(text@).len() == 0 {
                Err(InputProblem::Empty)
            } else if mentions_any(text@, self.word_filter.sensitive_words@) || mentions_any(
                text@,
                self.word_filter.custom_words@,
            ) {
                Err(InputProblem::SensitiveWord)
            } else {
                Ok(())
            },
    {
        self.word_filter.validate_input(text, max_length)
    }

    /// `text` with sensitive and custom words masked.
    pub fn filter_sensitive_words(&self, text: &String) -> (r: String)
        ensures
            r@ == filtered(
                filtered(text@, self.word_filter.sensitive_words@, self.word_filter.replacement@),
                self.word_filter.custom_words@,
                self.word_filter.replacement@,
            ),
    {
        self.word_filter.filter(text)
    }
}

} // verus!
