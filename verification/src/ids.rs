//! Identifier types used across the pipeline.

use vstd::prelude::*;

verus! {

/// A knowledge-graph entity identifier in its textual form: the letter `Q`
/// followed by the decimal digits of the numeric identifier.
#[derive(Clone, Debug, Hash)]
pub struct WikiStrId {
    pub value: String,
}

/// A knowledge-graph entity identifier in its numeric form.
#[derive(Clone, Copy, Debug, Hash, PartialEq, Eq, Structural)]
pub struct WikiId {
    pub value: u64,
}

/// A company VAT identifier.
#[derive(Clone, Debug, Hash)]
pub struct VatId {
    pub value: String,
}

/// Error returned when a textual identifier does not have the expected shape.
#[derive(Clone, Debug)]
pub struct ParseIdError {
    /// The text that could not be parsed.
    pub text: String,
}

impl View for WikiStrId {
    type V = Seq<char>;

    open spec fn view(&self) -> Seq<char> {
        self.value@
    }
}

impl DeepView for WikiStrId {
    type V = Seq<char>;

    open spec fn deep_view(&self) -> Seq<char> {
        self.value@
    }
}

impl View for VatId {
    type V = Seq<char>;

    open spec fn view(&self) -> Seq<char> {
        self.value@
    }
}

impl DeepView for VatId {
    type V = Seq<char>;

    open spec fn deep_view(&self) -> Seq<char> {
        self.value@
    }
}

impl PartialEq for WikiStrId {
    fn eq(&self, other: &WikiStrId) -> (r: bool) {
        self.value == other.value
    }
}

impl vstd::std_specs::cmp::PartialEqSpecImpl for WikiStrId {
    open spec fn obeys_eq_spec() -> bool {
        true
    }

    open spec fn eq_spec(&self, other: &WikiStrId) -> bool {
        self.value@ == other.value@
    }
}

/// Whether `c` is a decimal digit (code points 48 through 57).
pub open spec fn spec_digit(c: char) -> bool {
    48 <= c as int <= 57
}

/// The value of a decimal digit.
pub open spec fn digit_val(c: char) -> int {
    c as int - 48
}

/// Whether every character of `s` is a decimal digit.
pub open spec fn all_digits(s: Seq<char>) -> bool {
    forall|i: int| 0 <= i < s.len() ==> spec_digit(s[i])
}

/// The number that `s` denotes in decimal.
pub open spec fn digits_val(s: Seq<char>) -> int
    decreases s.len(),
{
    if s.len() == 0 {
        0
    } else {
        digits_val(s.drop_last()) * 10 + digit_val(s.last())
    }
}

/// Whether `s` has the shape of a textual entity identifier: the letter `Q`
/// followed by at least one decimal digit.
pub open spec fn is_wiki_str_id(s: Seq<char>) -> bool {
    s.len() >= 2 && s[0] == 'Q' && all_digits(s.skip(1))
}

/// A sequence of digits denotes a non-negative number.
proof fn lemma_digits_val_nonneg(s: Seq<char>)
    requires
        all_digits(s),
    ensures
        digits_val(s) >= 0,
    decreases s.len(),
{
    if s.len() > 0 {
        assert(all_digits(s.drop_last()));
        lemma_digits_val_nonneg(s.drop_last());
    }
}

/// Extending a digit sequence cannot shrink the number it denotes.
proof fn lemma_digits_val_prefix(s: Seq<char>, k: int)
    requires
        all_digits(s),
        0 <= k <= s.len(),
    ensures
        digits_val(s) >= digits_val(s.take(k)),
    decreases s.len() - k,
{
    if k == s.len() {
        assert(s.take(k) =~= s);
    } else {
        assert(all_digits(s.drop_last()));
        assert(s.drop_last().take(k) =~= s.take(k));
        lemma_digits_val_prefix(s.drop_last(), k);
        lemma_digits_val_nonneg(s.drop_last());
    }
}

impl WikiStrId {
    /// Constructs a textual identifier from its text.
    pub fn new(value: String) -> (r: Self)
        ensures
            r@ == value@,
    {
        WikiStrId { value }
    }

    /// Parses the numeric form out of this identifier. Returns the number
    /// after the leading `Q` when the identifier has the expected shape and
    /// the number fits; otherwise returns the offending text.
    pub fn to_num_id(&self) -> (r: Result<WikiId, ParseIdError>)
        ensures
            match r {
                Ok(id) => is_wiki_str_id(self@) && id.value == digits_val(self@.skip(1)),
                Err(e) => (!is_wiki_str_id(self@) || digits_val(self@.skip(1)) > u64::MAX)
                    && e.text@ == self@,
            },
    {
        let s = self.value.as_str();
        let n = s.unicode_len();
        if n < 2 || s.get_char(0) != 'Q' {
            return Err(ParseIdError { text: self.value.clone() });
        }
        let mut val: u64 = 0;
        let mut i: usize = 1;
        proof {
            assert(self.value@.subrange(1, 1) =~= Seq::<char>::empty());
        }
        while i < n
            invariant
                s@ == self.value@,
                n == self.value@.len(),
                2 <= n,
                1 <= i <= n,
                all_digits(self.value@.subrange(1, i as int)),
                val == digits_val(self.value@.subrange(1, i as int)),
            decreases n - i,
        {
            let c = s.get_char(i);
            let cu = c as u32;
            proof {
                assert(c == self.value@[i as int]);
                assert(cu as int == c as int);
            }
            if cu < 48 || cu > 57 {
                proof {
                    assert(!spec_digit(self.value@[i as int]));
                    assert(self.value@.skip(1)[i as int - 1] == self.value@[i as int]);
                    assert(!all_digits(self.value@.skip(1)));
                }
                return Err(ParseIdError { text: self.value.clone() });
            }
            let d = (cu - 48) as u64;
            proof {
                assert(d == digit_val(c));
                assert(self.value@.subrange(1, i as int + 1).drop_last() =~= self.value@.subrange(
                    1,
                    i as int,
                ));
                assert(self.value@.subrange(1, i as int + 1).last() == self.value@[i as int]);
            }
            if val > (u64::MAX - d) / 10 {
                proof {
                    assert(val * 10 + d > u64::MAX) by (nonlinear_arith)
                        requires
                            val > (u64::MAX - d) / 10,
                            d <= 9,
                    ;
                    assert(digits_val(self.value@.subrange(1, i as int + 1)) > u64::MAX);
                    if all_digits(self.value@.skip(1)) {
                        assert(self.value@.skip(1).take(i as int) =~= self.value@.subrange(
                            1,
                            i as int + 1,
                        ));
                        lemma_digits_val_prefix(self.value@.skip(1), i as int);
                    }
                }
                return Err(ParseIdError { text: self.value.clone() });
            }
            val = val * 10 + d;
            i = i + 1;
        }
        proof {
            assert(self.value@.subrange(1, n as int) =~= self.value@.skip(1));
        }
        Ok(WikiId { value: val })
    }
}

} // verus!
