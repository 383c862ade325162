//! Case transforms and the bit flags that a policy stores them in.
//!
//! A policy keeps its transforms in one byte, one bit per transform. The
//! contracts speak of the set of transforms that the byte stands for
//! ([`flag_set`]) and never of the bits themselves.

use vstd::prelude::*;

verus! {

/// The byte in which a policy keeps its transforms.
pub type FieldSize = u8;

/// How a word is cased.
///
/// The first four apply to one word. The two altercase modes apply to the
/// whole list of words: they alternate lower and upper case from word to word.
#[derive(Clone, Copy, Debug, PartialEq, Eq, Hash, Structural)]
pub enum WordTransform {
    /// The whole word in lower case.
    Lowercase,
    /// The first character in upper case, the rest as it is.
    Titlecase,
    /// The whole word in upper case.
    Uppercase,
    /// The first character in lower case, the rest in upper case.
    InversedTitlecase,
    /// Words alternate, starting in lower case.
    AltercaseLowerFirst,
    /// Words alternate, starting in upper case.
    AltercaseUpperFirst,
}

impl WordTransform {
    /// The flag of [`WordTransform::Lowercase`].
    pub const LOWERCASE: FieldSize = 0b0000_0001;

    /// The flag of [`WordTransform::Titlecase`].
    pub const TITLECASE: FieldSize = 0b0000_0010;

    /// The flag of [`WordTransform::Uppercase`].
    pub const UPPERCASE: FieldSize = 0b0000_0100;

    /// The flag of [`WordTransform::InversedTitlecase`].
    pub const INVERSED_TITLECASE: FieldSize = 0b0000_1000;

    /// The flag of [`WordTransform::AltercaseLowerFirst`].
    pub const ALTERCASE_LOWER_FIRST: FieldSize = 0b0001_0000;

    /// The flag of [`WordTransform::AltercaseUpperFirst`].
    pub const ALTERCASE_UPPER_FIRST: FieldSize = 0b0010_0000;

    /// The bit that stands for this transform.
    pub open spec fn spec_flag(self) -> FieldSize {
        match self {
            WordTransform::Lowercase => 0b0000_0001u8,
            WordTransform::Titlecase => 0b0000_0010u8,
            WordTransform::Uppercase => 0b0000_0100u8,
            WordTransform::InversedTitlecase => 0b0000_1000u8,
            WordTransform::AltercaseLowerFirst => 0b0001_0000u8,
            WordTransform::AltercaseUpperFirst => 0b0010_0000u8,
        }
    }

    /// The bit that stands for this transform.
    #[verifier::when_used_as_spec(spec_flag)]
    pub fn flag(self) -> (bit: FieldSize)
        ensures
            bit == self.spec_flag(),
    {
        match self {
            WordTransform::Lowercase => Self::LOWERCASE,
            WordTransform::Titlecase => Self::TITLECASE,
            WordTransform::Uppercase => Self::UPPERCASE,
            WordTransform::InversedTitlecase => Self::INVERSED_TITLECASE,
            WordTransform::AltercaseLowerFirst => Self::ALTERCASE_LOWER_FIRST,
            WordTransform::AltercaseUpperFirst => Self::ALTERCASE_UPPER_FIRST,
        }
    }

    /// Whether this transform cases one word by itself.
    pub open spec fn spec_is_single(self) -> bool {
        self != WordTransform::AltercaseLowerFirst && self != WordTransform::AltercaseUpperFirst
    }

    /// Whether this transform cases one word by itself.
    #[verifier::when_used_as_spec(spec_is_single)]
    pub fn is_single(self) -> (single: bool)
        ensures
            single == self.spec_is_single(),
    {
        match self {
            WordTransform::AltercaseLowerFirst => false,
            WordTransform::AltercaseUpperFirst => false,
            _ => true,
        }
    }
}

/// Whether the bit of `transform` is set in `flags`.
pub open spec fn spec_has_flag(flags: FieldSize, transform: WordTransform) -> bool {
    flags & transform.flag() != 0
}

/// Whether the bit of `transform` is set in `flags`.
#[verifier::when_used_as_spec(spec_has_flag)]
pub fn has_flag(flags: FieldSize, transform: WordTransform) -> (set: bool)
    ensures
        set == spec_has_flag(flags, transform),
{
    flags & transform.flag() != 0
}

/// The flags that hold `transform` and nothing else.
pub fn from_flag(transform: WordTransform) -> (flags: FieldSize)
    ensures
        flags == transform.flag(),
        flag_set(flags) == set![transform],
{
    proof {
        lemma_flag_set_of_one(transform);
    }
    transform.flag()
}

/// The transforms that `flags` stands for. Bits that belong to no transform
/// stand for nothing.
pub open spec fn flag_set(flags: FieldSize) -> Set<WordTransform> {
    Set::new(|transform: WordTransform| spec_has_flag(flags, transform))
}

/// Whether a set of transforms can govern a policy: one altercase mode alone,
/// or no altercase mode and at least one transform of a single word.
pub open spec fn usable_transforms(transforms: Set<WordTransform>) -> bool {
    ||| transforms == set![WordTransform::AltercaseLowerFirst]
    ||| transforms == set![WordTransform::AltercaseUpperFirst]
    ||| {
        &&& !transforms.contains(WordTransform::AltercaseLowerFirst)
        &&& !transforms.contains(WordTransform::AltercaseUpperFirst)
        &&& exists|transform: WordTransform| #[trigger] transforms.contains(transform)
    }
}

/// The set that governs a policy when `requested` is asked for, or `None`
/// where nothing usable was asked for. An altercase mode wins over the rest,
/// and the mode that starts in lower case wins over the other one.
pub open spec fn effective_transforms(requested: Set<WordTransform>) -> Option<
    Set<WordTransform>,
> {
    if requested.contains(WordTransform::AltercaseLowerFirst) {
        Some(set![WordTransform::AltercaseLowerFirst])
    } else if requested.contains(WordTransform::AltercaseUpperFirst) {
        Some(set![WordTransform::AltercaseUpperFirst])
    } else if exists|transform: WordTransform| #[trigger] requested.contains(transform) {
        Some(requested)
    } else {
        None
    }
}

/// The flags of one transform stand for that transform alone.
pub proof fn lemma_flag_set_of_one(transform: WordTransform)
    ensures
        flag_set(transform.flag()) == set![transform],
{
    assert(0b0000_0001u8 & 0b0000_0001u8 != 0 && 0b0000_0001u8 & 0b0000_0010u8 == 0 && 0b0000_0001u8
        & 0b0000_0100u8 == 0 && 0b0000_0001u8 & 0b0000_1000u8 == 0 && 0b0000_0001u8 & 0b0001_0000u8
        == 0 && 0b0000_0001u8 & 0b0010_0000u8 == 0) by (bit_vector);
    assert(0b0000_0010u8 & 0b0000_0001u8 == 0 && 0b0000_0010u8 & 0b0000_0010u8 != 0 && 0b0000_0010u8
        & 0b0000_0100u8 == 0 && 0b0000_0010u8 & 0b0000_1000u8 == 0 && 0b0000_0010u8 & 0b0001_0000u8
        == 0 && 0b0000_0010u8 & 0b0010_0000u8 == 0) by (bit_vector);
    assert(0b0000_0100u8 & 0b0000_0001u8 == 0 && 0b0000_0100u8 & 0b0000_0010u8 == 0 && 0b0000_0100u8
        & 0b0000_0100u8 != 0 && 0b0000_0100u8 & 0b0000_1000u8 == 0 && 0b0000_0100u8 & 0b0001_0000u8
        == 0 && 0b0000_0100u8 & 0b0010_0000u8 == 0) by (bit_vector);
    assert(0b0000_1000u8 & 0b0000_0001u8 == 0 && 0b0000_1000u8 & 0b0000_0010u8 == 0 && 0b0000_1000u8
        & 0b0000_0100u8 == 0 && 0b0000_1000u8 & 0b0000_1000u8 != 0 && 0b0000_1000u8 & 0b0001_0000u8
        == 0 && 0b0000_1000u8 & 0b0010_0000u8 == 0) by (bit_vector);
    assert(0b0001_0000u8 & 0b0000_0001u8 == 0 && 0b0001_0000u8 & 0b0000_0010u8 == 0 && 0b0001_0000u8
        & 0b0000_0100u8 == 0 && 0b0001_0000u8 & 0b0000_1000u8 == 0 && 0b0001_0000u8 & 0b0001_0000u8
        != 0 && 0b0001_0000u8 & 0b0010_0000u8 == 0) by (bit_vector);
    assert(0b0010_0000u8 & 0b0000_0001u8 == 0 && 0b0010_0000u8 & 0b0000_0010u8 == 0 && 0b0010_0000u8
        & 0b0000_0100u8 == 0 && 0b0010_0000u8 & 0b0000_1000u8 == 0 && 0b0010_0000u8 & 0b0001_0000u8
        == 0 && 0b0010_0000u8 & 0b0010_0000u8 != 0) by (bit_vector);
}

/// The union of two flag bytes stands for the union of their sets.
pub proof fn lemma_flag_set_of_union(a: FieldSize, b: FieldSize)
    ensures
        flag_set(a | b) == flag_set(a).union(flag_set(b)),
{
    assert forall|transform: WordTransform|
        spec_has_flag(a | b, transform) == (spec_has_flag(a, transform) || spec_has_flag(
            b,
            transform,
        )) by {
        let bit = transform.flag();
        assert(((a | b) & bit != 0) == ((a & bit != 0) || (b & bit != 0))) by (bit_vector);
    }
}

/// No flags stand for no transform.
pub proof fn lemma_flag_set_of_zero()
    ensures
        flag_set(0) == Set::<WordTransform>::empty(),
{
    assert forall|transform: WordTransform| !spec_has_flag(0, transform) by {
        let bit = transform.flag();
        assert(0u8 & bit == 0) by (bit_vector);
    }
}

} // verus!
