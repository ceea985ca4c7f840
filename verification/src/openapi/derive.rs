//! What the derive macros of the OpenAPI layer decide before they write
//! code: whether the item they are applied to is in order, and which of its
//! parts get which treatment.

use vstd::prelude::*;
use vstd::string::StringExecFns;

verus! {

/// Why a derive macro refuses an item.
#[derive(Debug, PartialEq, Eq)]
pub enum DeriveError {
    /// `AnyOf` is applied to something that is no enum.
    AnyOfNeedsEnum,
    /// The variant with this index does not hold exactly one object.
    IncorrectVariant(usize),
    /// `Multipart` is applied to something that is no struct.
    MultipartNeedsStruct,
}

impl DeriveError {
    /// The message of the error.
    pub open spec fn message(self) -> Seq<char> {
        match self {
            DeriveError::AnyOfNeedsEnum => "AnyOf can only be applied to an enum."@,
            DeriveError::IncorrectVariant(_) => "Incorrect oneof definition."@,
            DeriveError::MultipartNeedsStruct => "Multipart can only be applied to an struct."@,
        }
    }

    /// The message of the error, as the compiler shows it.
    pub fn to_message(&self) -> (message: String)
        ensures
            message@ == self.message(),
    {
        match self {
            DeriveError::AnyOfNeedsEnum => String::from_str("AnyOf can only be applied to an enum."),
            DeriveError::IncorrectVariant(_) => String::from_str("Incorrect oneof definition."),
            DeriveError::MultipartNeedsStruct => String::from_str(
                "Multipart can only be applied to an struct.",
            ),
        }
    }
}

/// What `AnyOf` reads of a variant.
pub struct AnyOfVariant {
    /// How many fields the variant has.
    pub fields: usize,
    /// The name that the variant is mapped to, if one was given.
    pub mapping: Option<String>,
}

/// What `Multipart` reads of a field.
pub struct MultipartField {
    /// Whether the field is left out of the form.
    pub skip: bool,
    /// The name of the field in the form, if one was given.
    pub rename: Option<String>,
}

/// Whether the first `n` of `variants` hold one object each.
pub open spec fn all_single(variants: Seq<AnyOfVariant>, n: int) -> bool {
    forall|i: int| 0 <= i < n ==> (#[trigger] variants[i]).fields == 1
}

/// What `AnyOf` says of an item: it must be an enum, and the first variant
/// that does not hold exactly one object is refused.
pub open spec fn any_of_checked(
    is_enum: bool,
    variants: Seq<AnyOfVariant>,
    checked: Result<(), DeriveError>,
) -> bool {
    match checked {
        Ok(()) => is_enum && all_single(variants, variants.len() as int),
        Err(DeriveError::AnyOfNeedsEnum) => !is_enum,
        Err(DeriveError::IncorrectVariant(i)) => {
            &&& is_enum
            &&& i < variants.len()
            &&& variants[i as int].fields != 1
            &&& all_single(variants, i as int)
        },
        Err(DeriveError::MultipartNeedsStruct) => false,
    }
}

/// Checks the item that `AnyOf` is applied to.
pub fn check_any_of(is_enum: bool, variants: &Vec<AnyOfVariant>) -> (checked: Result<
    (),
    DeriveError,
>)
    ensures
        any_of_checked(is_enum, variants@, checked),
{
    if !is_enum {
        return Err(DeriveError::AnyOfNeedsEnum);
    }
    let mut i: usize = 0;
    while i < variants.len()
        invariant
            is_enum,
            i <= variants.len(),
            all_single(variants@, i as int),
        decreases variants.len() - i,
    {
        if variants[i].fields != 1 {
            return Err(DeriveError::IncorrectVariant(i));
        }
        i += 1;
    }
    Ok(())
}

/// Checks the item that `Multipart` is applied to.
pub fn check_multipart(is_struct: bool) -> (checked: Result<(), DeriveError>)
    ensures
        checked == if is_struct {
            Ok::<(), DeriveError>(())
        } else {
            Err(DeriveError::MultipartNeedsStruct)
        },
{
    if is_struct {
        Ok(())
    } else {
        Err(DeriveError::MultipartNeedsStruct)
    }
}

/// Whether `picked` are the indices below `n` at which `flags` holds
/// `wanted`, in rising order and each once.
pub open spec fn picks(flags: Seq<bool>, wanted: bool, n: int, picked: Seq<usize>) -> bool {
    &&& forall|k: int| 0 <= k < picked.len() ==> (#[trigger] picked[k]) < n && flags[picked[k] as int] == wanted
    &&& forall|k: int, l: int| 0 <= k < l < picked.len() ==> picked[k] < picked[l]
    &&& forall|i: int|
        0 <= i < n && #[trigger] flags[i] == wanted ==> exists|k: int|
            0 <= k < picked.len() && picked[k] == i
}

/// The indices at which `flags` holds `wanted`, in rising order.
pub fn select(flags: &Vec<bool>, wanted: bool) -> (picked: Vec<usize>)
    ensures
        picks(flags@, wanted, flags.len() as int, picked@),
{
    let mut picked: Vec<usize> = Vec::new();
    let mut i: usize = 0;
    while i < flags.len()
        invariant
            i <= flags.len(),
            picks(flags@, wanted, i as int, picked@),
        decreases flags.len() - i,
    {
        if flags[i] == wanted {
            let ghost before = picked@;
            picked.push(i);
            proof {
                assert forall|j: int| 0 <= j < i + 1 && #[trigger] flags@[j] == wanted implies exists|
                    k: int,
                | 0 <= k < picked@.len() && picked@[k] == j by {
                    if j < i {
                        let k = choose|k: int| 0 <= k < before.len() && before[k] == j;
                        assert(picked@[k] == j);
                    } else {
                        assert(picked@[before.len() as int] == j);
                    }
                }
            }
        } else {
            proof {
                assert forall|j: int| 0 <= j < i + 1 && #[trigger] flags@[j] == wanted implies exists|
                    k: int,
                | 0 <= k < picked@.len() && picked@[k] == j by {
                    let k = choose|k: int| 0 <= k < picked@.len() && picked@[k] == j;
                    assert(picked@[k] == j);
                }
            }
        }
        i += 1;
    }
    picked
}

/// For each of `variants`, whether a name was given for it.
pub fn mapped(variants: &Vec<AnyOfVariant>) -> (flags: Vec<bool>)
    ensures
        flags.len() == variants.len(),
        forall|i: int| 0 <= i < flags.len() ==> flags[i] == (#[trigger] variants[i]).mapping is Some,
{
    let mut flags: Vec<bool> = Vec::new();
    let mut i: usize = 0;
    while i < variants.len()
        invariant
            i <= variants.len(),
            flags.len() == i,
            forall|j: int| 0 <= j < i ==> flags[j] == (#[trigger] variants[j]).mapping is Some,
        decreases variants.len() - i,
    {
        flags.push(variants[i].mapping.is_some());
        i += 1;
    }
    flags
}

/// For each of `fields`, whether it is left out of the form.
pub fn skipped(fields: &Vec<MultipartField>) -> (flags: Vec<bool>)
    ensures
        flags.len() == fields.len(),
        forall|i: int| 0 <= i < flags.len() ==> flags[i] == (#[trigger] fields[i]).skip,
{
    let mut flags: Vec<bool> = Vec::new();
    let mut i: usize = 0;
    while i < fields.len()
        invariant
            i <= fields.len(),
            flags.len() == i,
            forall|j: int| 0 <= j < i ==> flags[j] == (#[trigger] fields[j]).skip,
        decreases fields.len() - i,
    {
        flags.push(fields[i].skip);
        i += 1;
    }
    flags
}

/// The name of a field in the form: the one given for it, or else the one
/// that the rule for the whole struct makes of its identifier.
pub fn field_name(rename: Option<String>, by_rule: String) -> (name: String)
    ensures
        name == match rename {
            Some(given) => given,
            None => by_rule,
        },
{
    match rename {
        Some(given) => given,
        None => by_rule,
    }
}

} // verus!
