//! Recognises text events and turns key codes into commands.
use vstd::prelude::*;
use vstd::string::StringSliceAdditionalSpecFns;

verus! {

/// A command for the game.
pub enum Command {
    MoveEntity { entity_id: &'static str, x: i32, y: i32 },
    Quit,
}

/// ASCII whitespace, which separates the words of an event.
pub open spec fn is_space(b: u8) -> bool {
    b == 32 || (9 <= b <= 13)
}

/// The bytes of the word `key`.
pub open spec fn key_word() -> Seq<u8> {
    seq![107u8, 101u8, 121u8]
}

/// `i` is where the first word of `s` starts: everything before it is
/// whitespace and `s[i]` is not.
pub open spec fn first_word_at(s: Seq<u8>, i: int) -> bool {
    &&& 0 <= i < s.len()
    &&& !is_space(s[i])
    &&& forall|j: int| 0 <= j < i ==> is_space(#[trigger] s[j])
}

/// The first word of `s` is `key`.
pub open spec fn is_key_event(s: Seq<u8>) -> bool {
    exists|i: int|
        #[trigger] first_word_at(s, i) && i + 3 <= s.len() && s.subrange(i, i + 3) == key_word() && (i + 3
            == s.len() || is_space(s[i + 3]))
}

/// An ASCII decimal digit.
pub open spec fn is_digit(b: u8) -> bool {
    48 <= b <= 57
}

/// Every byte of `d` is a digit.
pub open spec fn all_digits(d: Seq<u8>) -> bool {
    forall|j: int| 0 <= j < d.len() ==> is_digit(#[trigger] d[j])
}

/// The value of a string of digits, most significant first.
pub open spec fn digits_value(d: Seq<u8>) -> int
    decreases d.len(),
{
    if d.len() == 0 {
        0
    } else {
        digits_value(d.drop_last()) * 10 + (d.last() - 48)
    }
}

/// The integer a word spells: an optional `+` or `-`, then one or more
/// digits.
pub open spec fn word_value(w: Seq<u8>) -> Option<int> {
    if w.len() > 0 && (w[0] == 45 || w[0] == 43) {
        let d = w.drop_first();
        if d.len() > 0 && all_digits(d) {
            Some(if w[0] == 45 { -digits_value(d) } else { digits_value(d) })
        } else {
            None
        }
    } else if w.len() > 0 && all_digits(w) {
        Some(digits_value(w))
    } else {
        None
    }
}

/// `s[a..b]` is the second word of `s`, whose first word is `key`.
pub open spec fn key_argument_at(s: Seq<u8>, a: int, b: int) -> bool {
    exists|i: int|
        #[trigger] first_word_at(s, i) && i + 3 < a && s.subrange(i, i + 3) == key_word() && (forall|j: int|
            i + 3 <= j < a ==> is_space(#[trigger] s[j])) && a < b <= s.len() && (forall|j: int|
            a <= j < b ==> !is_space(#[trigger] s[j])) && (b == s.len() || is_space(s[b]))
}

/// Prefixes of a digit string are worth no more than the whole.
pub proof fn lemma_digits_value_grows(d: Seq<u8>, k: int)
    requires
        all_digits(d),
        0 <= k <= d.len(),
    ensures
        0 <= digits_value(d.subrange(0, k)) <= digits_value(d),
    decreases d.len() - k,
{
    if k < d.len() {
        lemma_digits_value_grows(d, k + 1);
        assert(d.subrange(0, k + 1).drop_last() =~= d.subrange(0, k));
        assert(is_digit(d[k]));
    } else {
        assert(d.subrange(0, k) =~= d);
    }
    lemma_digits_value_nonneg(d.subrange(0, k));
}

/// A digit string has a non-negative value.
pub proof fn lemma_digits_value_nonneg(d: Seq<u8>)
    requires
        all_digits(d),
    ensures
        0 <= digits_value(d),
    decreases d.len(),
{
    if d.len() > 0 {
        assert(all_digits(d.drop_last())) by {
            assert forall|j: int| 0 <= j < d.drop_last().len() implies is_digit(#[trigger] d.drop_last()[j]) by {
                assert(d.drop_last()[j] == d[j]);
            }
        }
        lemma_digits_value_nonneg(d.drop_last());
        assert(is_digit(d[d.len() - 1]));
    }
}

/// The word that follows `key` is determined by the text.
pub proof fn lemma_key_argument_unique(s: Seq<u8>, a: int, b: int, a2: int, b2: int)
    requires
        key_argument_at(s, a, b),
        key_argument_at(s, a2, b2),
    ensures
        a == a2 && b == b2,
{
    let i = choose|i: int|
        #[trigger] first_word_at(s, i) && i + 3 < a && s.subrange(i, i + 3) == key_word() && (forall|j: int|
            i + 3 <= j < a ==> is_space(#[trigger] s[j])) && a < b <= s.len() && (forall|j: int|
            a <= j < b ==> !is_space(#[trigger] s[j])) && (b == s.len() || is_space(s[b]));
    let i2 = choose|i: int|
        #[trigger] first_word_at(s, i) && i + 3 < a2 && s.subrange(i, i + 3) == key_word() && (forall|j: int|
            i + 3 <= j < a2 ==> is_space(#[trigger] s[j])) && a2 < b2 <= s.len() && (forall|j: int|
            a2 <= j < b2 ==> !is_space(#[trigger] s[j])) && (b2 == s.len() || is_space(s[b2]));
    if i < i2 {
        assert(is_space(s[i]));
    } else if i2 < i {
        assert(is_space(s[i2]));
    }
    if a < a2 {
        assert(is_space(s[a]));
    } else if a2 < a {
        assert(is_space(s[a2]));
    }
    if b < b2 {
        assert(!is_space(s[b]));
    } else if b2 < b {
        assert(!is_space(s[b2]));
    }
}

/// The value of `s[a..b]` if it is all digits and at most 2^31.
fn parse_digits(s: &[u8], a: usize, b: usize) -> (r: Option<i64>)
    requires
        a <= b <= s@.len(),
    ensures
        match r {
            Some(v) => all_digits(s@.subrange(a as int, b as int)) && v == digits_value(s@.subrange(a as int, b as int))
                && 0 <= v <= 2147483648,
            None => !all_digits(s@.subrange(a as int, b as int)) || digits_value(s@.subrange(a as int, b as int))
                > 2147483648,
        },
{
    let mut v: i64 = 0;
    let mut k: usize = a;
    proof {
        assert(s@.subrange(a as int, a as int) =~= Seq::<u8>::empty());
    }
    while k < b
        invariant
            a <= k <= b <= s@.len(),
            all_digits(s@.subrange(a as int, k as int)),
            v == digits_value(s@.subrange(a as int, k as int)),
            0 <= v <= 2147483648,
        decreases b - k,
    {
        let c = s[k];
        let ghost sub = s@.subrange(a as int, b as int);
        let ghost next = s@.subrange(a as int, k + 1);
        proof {
            assert(next.drop_last() =~= s@.subrange(a as int, k as int));
            assert(sub[k - a] == c);
        }
        if c < 48 || c > 57 {
            proof {
                assert(!is_digit(sub[k - a]));
            }
            return None;
        }
        let nv: i64 = v * 10 + (c - 48) as i64;
        proof {
            assert(all_digits(next)) by {
                assert forall|j: int| 0 <= j < next.len() implies is_digit(#[trigger] next[j]) by {
                    if j < next.len() - 1 {
                        assert(next[j] == s@.subrange(a as int, k as int)[j]);
                    }
                }
            }
            assert(nv == digits_value(next));
        }
        if nv > 2147483648 {
            proof {
                if all_digits(sub) {
                    lemma_digits_value_grows(sub, k + 1 - a);
                    assert(sub.subrange(0, k + 1 - a) =~= next);
                }
            }
            return None;
        }
        v = nv;
        k = k + 1;
    }
    Some(v)
}

/// Keeps the commands issued so far.
pub struct CommandManager {
    command_history: Vec<Command>,
}

impl CommandManager {
    /// Number of commands issued so far.
    pub closed spec fn history_len(&self) -> nat {
        self.command_history@.len()
    }

    pub fn new() -> (r: Self)
        ensures
            r.history_len() == 0,
    {
        Self { command_history: Vec::new() }
    }

    /// Whether `event` is a key event, i.e. its first word is `key`.
    pub fn is_command_event(&self, event: &str) -> (r: bool)
        ensures
            r == is_key_event(event.spec_bytes()),
    {
        let bytes = event.as_bytes();
        let n = bytes.len();
        let mut i: usize = 0;
        while i < n && (bytes[i] == 32 || (9 <= bytes[i] && bytes[i] <= 13))
            invariant
                n == bytes@.len(),
                bytes@ == event.spec_bytes(),
                i <= n,
                forall|j: int| 0 <= j < i ==> is_space(#[trigger] bytes@[j]),
            decreases n - i,
        {
            i = i + 1;
        }
        if n - i >= 3 && bytes[i] == 107 && bytes[i + 1] == 101 && bytes[i + 2] == 121 && (i + 3 == n || bytes[i + 3]
            == 32 || (9 <= bytes[i + 3] && bytes[i + 3] <= 13)) {
            proof {
                assert(first_word_at(bytes@, i as int));
                assert(bytes@.subrange(i as int, i + 3) =~= key_word());
            }
            true
        } else {
            proof {
                if is_key_event(bytes@) {
                    let k = choose|k: int|
                        #[trigger] first_word_at(bytes@, k) && k + 3 <= bytes@.len() && bytes@.subrange(k, k + 3)
                            == key_word() && (k + 3 == bytes@.len() || is_space(bytes@[k + 3]));
                    if k < i {
                        assert(is_space(bytes@[k]));
                    } else if k > i {
                        assert(is_space(bytes@[i as int]));
                    } else {
                        assert(bytes@.subrange(k, k + 3)[0] == bytes@[k]);
                        assert(bytes@.subrange(k, k + 3)[1] == bytes@[k + 1]);
                        assert(bytes@.subrange(k, k + 3)[2] == bytes@[k + 2]);
                    }
                }
            }
            false
        }
    }

    /// The key code of a key event: the integer that follows the word `key`
    /// (an optional sign, then digits, within `i32`). Other events, and key
    /// events without such a number, give `None`.
    pub fn get_key_event_input(&self, event: &str) -> (r: Option<i32>)
        ensures
            match r {
                Some(v) => exists|a: int, b: int|
                    key_argument_at(event.spec_bytes(), a, b) && word_value(event.spec_bytes().subrange(a, b))
                        == Some(v as int),
                None => forall|a: int, b: int|
                    key_argument_at(event.spec_bytes(), a, b) ==> !(word_value(event.spec_bytes().subrange(a, b)) matches Some(
                        v,
                    ) && i32::MIN <= v <= i32::MAX),
            },
    {
        let bytes = event.as_bytes();
        let n = bytes.len();
        let ghost s = bytes@;
        if !self.is_command_event(event) {
            proof {
                assert forall|a: int, b: int| key_argument_at(s, a, b) implies false by {
                    let i = choose|i: int|
                        #[trigger] first_word_at(s, i) && i + 3 < a && s.subrange(i, i + 3) == key_word() && (forall|j: int|
                            i + 3 <= j < a ==> is_space(#[trigger] s[j])) && a < b <= s.len() && (forall|j: int|
                            a <= j < b ==> !is_space(#[trigger] s[j])) && (b == s.len() || is_space(s[b]));
                    assert(is_space(s[i + 3]));
                    assert(is_key_event(s));
                }
            }
            return None;
        }
        let mut i: usize = 0;
        while i < n && (bytes[i] == 32 || (9 <= bytes[i] && bytes[i] <= 13))
            invariant
                n == s.len(),
                bytes@ == s,
                i <= n,
                forall|j: int| 0 <= j < i ==> is_space(#[trigger] s[j]),
            decreases n - i,
        {
            i = i + 1;
        }
        proof {
            let k = choose|k: int|
                #[trigger] first_word_at(s, k) && k + 3 <= s.len() && s.subrange(k, k + 3) == key_word() && (k + 3
                    == s.len() || is_space(s[k + 3]));
            if k < i {
                assert(is_space(s[k]));
            } else if i < k {
                assert(is_space(s[i as int]));
            }
            assert(first_word_at(s, i as int));
        }
        let mut a: usize = i + 3;
        while a < n && (bytes[a] == 32 || (9 <= bytes[a] && bytes[a] <= 13))
            invariant
                n == s.len(),
                bytes@ == s,
                i + 3 <= a <= n,
                forall|j: int| i + 3 <= j < a ==> is_space(#[trigger] s[j]),
            decreases n - a,
        {
            a = a + 1;
        }
        if a == n || a == i + 3 {
            proof {
                assert forall|a2: int, b2: int| key_argument_at(s, a2, b2) implies false by {
                    let i2 = choose|i2: int|
                        #[trigger] first_word_at(s, i2) && i2 + 3 < a2 && s.subrange(i2, i2 + 3) == key_word() && (forall|j: int|
                            i2 + 3 <= j < a2 ==> is_space(#[trigger] s[j])) && a2 < b2 <= s.len() && (forall|j: int|
                            a2 <= j < b2 ==> !is_space(#[trigger] s[j])) && (b2 == s.len() || is_space(s[b2]));
                    if i2 < i {
                        assert(is_space(s[i2]));
                    } else if i < i2 {
                        assert(is_space(s[i as int]));
                    }
                    if a == i + 3 {
                        assert(is_space(s[i + 3]));
                    } else {
                        assert(is_space(s[a2]));
                    }
                }
            }
            return None;
        }
        let mut b: usize = a;
        while b < n && !(bytes[b] == 32 || (9 <= bytes[b] && bytes[b] <= 13))
            invariant
                n == s.len(),
                bytes@ == s,
                a <= b <= n,
                forall|j: int| a <= j < b ==> !is_space(#[trigger] s[j]),
            decreases n - b,
        {
            b = b + 1;
        }
        let ghost w = s.subrange(a as int, b as int);
        proof {
            assert(key_argument_at(s, a as int, b as int)) by {
                assert(first_word_at(s, i as int));
            }
            assert forall|a2: int, b2: int| key_argument_at(s, a2, b2) implies a2 == a && b2 == b by {
                lemma_key_argument_unique(s, a as int, b as int, a2, b2);
            }
        }
        let sign = bytes[a];
        if sign == 45 || sign == 43 {
            let parsed = parse_digits(bytes, a + 1, b);
            proof {
                assert(w.drop_first() =~= s.subrange(a + 1, b as int));
            }
            match parsed {
                Some(v) => {
                    if a + 1 == b {
                        return None;
                    }
                    if sign == 45 {
                        Some((-v) as i32)
                    } else if v <= 2147483647 {
                        Some(v as i32)
                    } else {
                        None
                    }
                },
                None => None,
            }
        } else {
            let parsed = parse_digits(bytes, a, b);
            match parsed {
                Some(v) => {
                    if v <= 2147483647 {
                        Some(v as i32)
                    } else {
                        None
                    }
                },
                None => None,
            }
        }
    }

    /// Reacts to a key code. No key issues a command yet.
    pub fn handle_input(&mut self, input: i32) -> (r: Option<Command>)
        ensures
            r is None,
            final(self).history_len() == old(self).history_len(),
    {
        None
    }
}

} // verus!
