//! The recipient validator: is a stored address one that mail can go to?

use vstd::prelude::*;
use vstd::std_specs::iter::IteratorSpec;

verus! {

broadcast use vstd::string::group_string_axioms;

/// The separator between the local part and the domain.
pub const AT: char = '@';

/// Why a stored address was turned down.
#[derive(Clone, Copy, Debug, PartialEq, Eq, Structural)]
pub enum ValidationError {
    /// The address has no characters at all.
    Empty,
    /// The address holds no `@`.
    MissingAt,
    /// The address holds more than one `@`.
    MultipleAt,
    /// Nothing stands before the `@`.
    EmptyLocalPart,
    /// Nothing stands after the `@`.
    EmptyDomain,
}

/// An address is well formed when it has exactly one `@`, with at least one
/// character before it and at least one after it.
pub open spec fn well_formed(s: Seq<char>) -> bool {
    exists|at: int|
        0 < at < s.len() - 1 && #[trigger] s[at] == AT && forall|j: int|
            0 <= j < s.len() && j != at ==> s[j] != AT
}

/// How many of the first `n` characters of `s` are `@`.
pub open spec fn count_at(s: Seq<char>, n: int) -> nat
    decreases n,
{
    if n <= 0 {
        0
    } else {
        count_at(s, n - 1) + if s[n - 1] == AT {
            1nat
        } else {
            0nat
        }
    }
}

/// What is wrong with `s`, if anything. The faults are looked for in the
/// order of the variants of [`ValidationError`].
pub open spec fn fault(s: Seq<char>) -> Option<ValidationError> {
    if s.len() == 0 {
        Some(ValidationError::Empty)
    } else if count_at(s, s.len() as int) == 0 {
        Some(ValidationError::MissingAt)
    } else if count_at(s, s.len() as int) > 1 {
        Some(ValidationError::MultipleAt)
    } else if s[0] == AT {
        Some(ValidationError::EmptyLocalPart)
    } else if s[s.len() - 1] == AT {
        Some(ValidationError::EmptyDomain)
    } else {
        None
    }
}

proof fn lemma_count_zero(s: Seq<char>, n: int)
    requires
        0 <= n <= s.len(),
    ensures
        count_at(s, n) == 0 <==> forall|j: int| 0 <= j < n ==> s[j] != AT,
    decreases n,
{
    if n > 0 {
        lemma_count_zero(s, n - 1);
    }
}

proof fn lemma_count_one(s: Seq<char>, n: int)
    requires
        0 <= n <= s.len(),
    ensures
        count_at(s, n) == 1 <==> exists|at: int|
            0 <= at < n && #[trigger] s[at] == AT && forall|j: int|
                0 <= j < n && j != at ==> s[j] != AT,
    decreases n,
{
    if n > 0 {
        lemma_count_one(s, n - 1);
        lemma_count_zero(s, n - 1);
        if count_at(s, n) == 1 {
            if s[n - 1] == AT {
                assert(forall|j: int| 0 <= j < n && j != n - 1 ==> s[j] != AT);
            } else {
                let at = choose|at: int|
                    0 <= at < n - 1 && #[trigger] s[at] == AT && forall|j: int|
                        0 <= j < n - 1 && j != at ==> s[j] != AT;
                assert(forall|j: int| 0 <= j < n && j != at ==> s[j] != AT);
            }
        }
        if exists|at: int|
            0 <= at < n && #[trigger] s[at] == AT && forall|j: int|
                0 <= j < n && j != at ==> s[j] != AT {
            let at = choose|at: int|
                0 <= at < n && #[trigger] s[at] == AT && forall|j: int|
                    0 <= j < n && j != at ==> s[j] != AT;
            if at == n - 1 {
                assert(forall|j: int| 0 <= j < n - 1 ==> s[j] != AT);
            } else {
                assert(s[n - 1] != AT);
                assert(forall|j: int| 0 <= j < n - 1 && j != at ==> s[j] != AT);
            }
        }
    }
}

/// An address has no fault exactly when it is well formed.
pub proof fn lemma_fault_free_is_well_formed(s: Seq<char>)
    ensures
        fault(s) is None <==> well_formed(s),
{
    lemma_count_one(s, s.len() as int);
    if fault(s) is None {
        let at = choose|at: int|
            0 <= at < s.len() && #[trigger] s[at] == AT && forall|j: int|
                0 <= j < s.len() && j != at ==> s[j] != AT;
        assert(0 < at < s.len() - 1);
    }
    if well_formed(s) {
        let at = choose|at: int|
            0 < at < s.len() - 1 && #[trigger] s[at] == AT && forall|j: int|
                0 <= j < s.len() && j != at ==> s[j] != AT;
        assert(s[0] != AT);
        assert(s[s.len() - 1] != AT);
    }
}

/// An address that has passed [`validate`].
#[derive(Debug, PartialEq, Eq)]
pub struct ValidAddress {
    address: String,
}

impl View for ValidAddress {
    type V = Seq<char>;

    closed spec fn view(&self) -> Seq<char> {
        self.address@
    }
}

impl Clone for ValidAddress {
    fn clone(&self) -> (copy: Self)
        ensures
            copy@ == self@,
    {
        proof {
            use_type_invariant(self);
        }
        ValidAddress { address: self.address.clone() }
    }
}

impl ValidAddress {
    #[verifier::type_invariant]
    spec fn holds_well_formed(self) -> bool {
        well_formed(self.address@)
    }

    /// The address as text.
    pub fn as_str(&self) -> (text: &str)
        ensures
            text@ == self@,
            well_formed(text@),
    {
        proof {
            use_type_invariant(self);
        }
        self.address.as_str()
    }

    /// Gives the text back.
    pub fn into_string(self) -> (text: String)
        ensures
            text@ == self@,
            well_formed(text@),
    {
        proof {
            use_type_invariant(&self);
        }
        self.address
    }
}

/// Checks a stored address. It is accepted, unchanged, exactly when it is well
/// formed; otherwise the first fault found is returned.
pub fn validate(raw_address: String) -> (checked: Result<ValidAddress, ValidationError>)
    ensures
        match checked {
            Ok(address) => well_formed(raw_address@) && address@ == raw_address@,
            Err(error) => !well_formed(raw_address@) && fault(raw_address@) == Some(error),
        },
{
    let ghost s = raw_address@;
    let ghost mut position: int = 0;
    let mut seen: u8 = 0;
    let mut any: bool = false;
    let mut first_is_at: bool = false;
    let mut last_is_at: bool = false;
    let mut chars = raw_address.as_str().chars();
    loop
        invariant_except_break
            chars.remaining() == s.subrange(position, s.len() as int),
        invariant
            s == raw_address@,
            0 <= position <= s.len(),
            any == (position > 0),
            seen == 0 || seen == 1 || seen == 2,
            seen == 0 <==> count_at(s, position) == 0,
            seen == 1 <==> count_at(s, position) == 1,
            any ==> first_is_at == (s[0] == AT),
            any ==> last_is_at == (s[position - 1] == AT),
        ensures
            position == s.len(),
        decreases s.len() - position,
    {
        match chars.next() {
            None => {
                break ;
            },
            Some(c) => {
                assert(c == s[position]);
                assert(chars.remaining() == s.subrange(position + 1, s.len() as int));
                last_is_at = c == AT;
                if !any {
                    first_is_at = last_is_at;
                    any = true;
                }
                if last_is_at && seen < 2 {
                    seen = seen + 1;
                }
                proof {
                    position = position + 1;
                }
            },
        }
    }
    proof {
        lemma_fault_free_is_well_formed(s);
    }
    if !any {
        Err(ValidationError::Empty)
    } else if seen == 0 {
        Err(ValidationError::MissingAt)
    } else if seen > 1 {
        Err(ValidationError::MultipleAt)
    } else if first_is_at {
        Err(ValidationError::EmptyLocalPart)
    } else if last_is_at {
        Err(ValidationError::EmptyDomain)
    } else {
        Ok(ValidAddress { address: raw_address })
    }
}

} // verus!
