use vstd::prelude::*;

verus! {

/// How a field attribute is written: `#[name]`, `#[name(...)]` or
/// `#[name = "..."]`.
#[derive(Clone, Copy, PartialEq, Eq, Structural, Debug)]
pub enum AttrForm {
    Path,
    List,
    NameValue,
}

/// Which measurement marker a field attribute names, if any.
#[derive(Clone, Copy, PartialEq, Eq, Structural, Debug)]
pub enum Marker {
    /// `ignore_malloc_size_of`: leave the field out; the attribute must carry
    /// the reason as its value.
    Ignore,
    /// `conditional_malloc_size_of`: measure the field with
    /// `MallocConditionalSizeOf`.
    Conditional,
    /// Any other attribute.
    Other,
}

/// One attribute of a field.
#[derive(Clone, Copy, PartialEq, Eq, Structural, Debug)]
pub struct FieldAttr {
    pub form: AttrForm,
    pub marker: Marker,
}

/// What the generator reads of one field binding: its attributes, and
/// whether its type is a fixed-size array.
#[derive(Clone, Debug)]
pub struct FieldInfo {
    pub attrs: Vec<FieldAttr>,
    pub is_array: bool,
}

/// The trait through which a binding is measured.
#[derive(Clone, Copy, PartialEq, Eq, Structural, Debug)]
pub enum MeasurePath {
    Deep,
    Conditional,
}

/// One measurement in the generated code: the binding it reads, the trait it
/// goes through, and whether it measures each item of an array binding.
#[derive(Clone, Copy, PartialEq, Eq, Structural, Debug)]
pub struct Step {
    pub binding: usize,
    pub path: MeasurePath,
    pub per_item: bool,
}

/// Misuse of the field markers, found before any code is generated.
#[derive(Clone, Copy, PartialEq, Eq, Structural, Debug)]
pub enum DeriveError {
    /// `ignore_malloc_size_of` written without a reason.
    MissingExplanation,
    /// `ignore_malloc_size_of` and `conditional_malloc_size_of` on one field.
    IgnoreWithConditional,
}

impl DeriveError {
    /// The message the generator fails with.
    pub fn message(&self) -> (r: &'static str) {
        match self {
            DeriveError::MissingExplanation => {
                "#[ignore_malloc_size_of] should have an explanation, e.g. #[ignore_malloc_size_of = \"because reasons\"]"
            },
            DeriveError::IgnoreWithConditional => {
                "ignore_malloc_size_of and conditional_malloc_size_of are incompatible"
            },
        }
    }
}

/// An `ignore_malloc_size_of` attribute without a reason.
pub open spec fn lacks_explanation(attrs: Seq<FieldAttr>) -> bool {
    exists|i: int|
        0 <= i < attrs.len() && (#[trigger] attrs[i]).marker == Marker::Ignore && attrs[i].form
            != AttrForm::NameValue
}

/// An `ignore_malloc_size_of = "..."` attribute.
pub open spec fn is_ignored(attrs: Seq<FieldAttr>) -> bool {
    exists|i: int|
        0 <= i < attrs.len() && (#[trigger] attrs[i]).marker == Marker::Ignore && attrs[i].form
            == AttrForm::NameValue
}

/// A `conditional_malloc_size_of` attribute, in any form.
pub open spec fn is_conditional(attrs: Seq<FieldAttr>) -> bool {
    exists|i: int| 0 <= i < attrs.len() && (#[trigger] attrs[i]).marker == Marker::Conditional
}

/// What the generator does with one field: an error, nothing (ignored), or
/// a measurement through the given trait.
#[verifier::opaque]
pub open spec fn spec_field_plan(f: FieldInfo) -> Result<Option<MeasurePath>, DeriveError> {
    if lacks_explanation(f.attrs@) {
        Err(DeriveError::MissingExplanation)
    } else if is_ignored(f.attrs@) && is_conditional(f.attrs@) {
        Err(DeriveError::IgnoreWithConditional)
    } else if is_ignored(f.attrs@) {
        Ok(None)
    } else if is_conditional(f.attrs@) {
        Ok(Some(MeasurePath::Conditional))
    } else {
        Ok(Some(MeasurePath::Deep))
    }
}

/// The measurements generated for the bindings, in order, or the first
/// field's error.
pub open spec fn spec_plan(fields: Seq<FieldInfo>) -> Result<Seq<Step>, DeriveError>
    decreases fields.len(),
{
    if fields.len() == 0 {
        Ok(Seq::empty())
    } else {
        match spec_plan(fields.drop_last()) {
            Err(e) => Err(e),
            Ok(steps) => match spec_field_plan(fields.last()) {
                Err(e) => Err(e),
                Ok(None) => Ok(steps),
                Ok(Some(path)) => Ok(
                    steps.push(
                        Step {
                            binding: (fields.len() - 1) as usize,
                            path,
                            per_item: fields.last().is_array,
                        },
                    ),
                ),
            },
        }
    }
}

/// Decides how one field is measured.
pub fn field_plan(f: &FieldInfo) -> (r: Result<Option<MeasurePath>, DeriveError>)
    ensures
        r == spec_field_plan(*f),
{
    let mut ignore = false;
    let mut conditional = false;
    let mut i: usize = 0;
    while i < f.attrs.len()
        invariant
            i <= f.attrs@.len(),
            !lacks_explanation(f.attrs@.take(i as int)),
            ignore == is_ignored(f.attrs@.take(i as int)),
            conditional == is_conditional(f.attrs@.take(i as int)),
        decreases f.attrs@.len() - i,
    {
        let a = f.attrs[i];
        let ghost prefix = f.attrs@.take(i as int);
        let ghost next = f.attrs@.take(i as int + 1);
        assert(next =~= prefix.push(a));
        match a.marker {
            Marker::Ignore => {
                if a.form != AttrForm::NameValue {
                    assert(lacks_explanation(f.attrs@)) by {
                        assert(f.attrs@[i as int] == a);
                        assert(f.attrs@[i as int].marker == Marker::Ignore && f.attrs@[i as int].form
                            != AttrForm::NameValue);
                    }
                    reveal(spec_field_plan);
                    return Err(DeriveError::MissingExplanation);
                }
                ignore = true;
            },
            Marker::Conditional => {
                conditional = true;
            },
            Marker::Other => {},
        }
        proof {
            assert(!lacks_explanation(next)) by {
                if lacks_explanation(next) {
                    let j = choose|j: int|
                        0 <= j < next.len() && (#[trigger] next[j]).marker == Marker::Ignore
                            && next[j].form != AttrForm::NameValue;
                    if j < i {
                        assert(prefix[j] == next[j]);
                    } else {
                        assert(next[j] == a);
                    }
                }
            }
            if ignore {
                if !is_ignored(prefix) {
                    assert(next[i as int] == a);
                }
            } else {
                assert(!is_ignored(next)) by {
                    if is_ignored(next) {
                        let j = choose|j: int|
                            0 <= j < next.len() && (#[trigger] next[j]).marker == Marker::Ignore
                                && next[j].form == AttrForm::NameValue;
                        if j < i {
                            assert(prefix[j] == next[j]);
                        }
                    }
                }
            }
            if conditional {
                if !is_conditional(prefix) {
                    assert(next[i as int] == a);
                }
            } else {
                assert(!is_conditional(next)) by {
                    if is_conditional(next) {
                        let j = choose|j: int|
                            0 <= j < next.len() && (#[trigger] next[j]).marker
                                == Marker::Conditional;
                        if j < i {
                            assert(prefix[j] == next[j]);
                        }
                    }
                }
            }
            if is_ignored(prefix) {
                let j = choose|j: int|
                    0 <= j < prefix.len() && (#[trigger] prefix[j]).marker == Marker::Ignore
                        && prefix[j].form == AttrForm::NameValue;
                assert(next[j] == prefix[j]);
            }
            if is_conditional(prefix) {
                let j = choose|j: int|
                    0 <= j < prefix.len() && (#[trigger] prefix[j]).marker == Marker::Conditional;
                assert(next[j] == prefix[j]);
            }
        }
        i = i + 1;
    }
    assert(f.attrs@.take(i as int) =~= f.attrs@);
    reveal(spec_field_plan);
    if ignore && conditional {
        Err(DeriveError::IgnoreWithConditional)
    } else if ignore {
        Ok(None)
    } else if conditional {
        Ok(Some(MeasurePath::Conditional))
    } else {
        Ok(Some(MeasurePath::Deep))
    }
}

/// Plans the measurements of a type's bindings, in order: one step per
/// binding that is not ignored, or the error of the first misused field.
pub fn plan(fields: &Vec<FieldInfo>) -> (r: Result<Vec<Step>, DeriveError>)
    ensures
        match (r, spec_plan(fields@)) {
            (Ok(steps), Ok(expected)) => steps@ == expected,
            (Err(e), Err(expected)) => e == expected,
            _ => false,
        },
{
    let mut steps: Vec<Step> = Vec::new();
    let mut i: usize = 0;
    while i < fields.len()
        invariant
            i <= fields@.len(),
            spec_plan(fields@.take(i as int)) == Ok::<Seq<Step>, DeriveError>(steps@),
        decreases fields@.len() - i,
    {
        let ghost prefix = fields@.take(i as int);
        let ghost next = fields@.take(i as int + 1);
        assert(next.drop_last() =~= prefix);
        assert(next.last() == fields@[i as int]);
        match field_plan(&fields[i]) {
            Err(e) => {
                proof {
                    lemma_plan_error_persists(fields@, i as int + 1);
                    assert(fields@.take(fields@.len() as int) =~= fields@);
                }
                return Err(e);
            },
            Ok(None) => {},
            Ok(Some(path)) => {
                steps.push(Step { binding: i, path, per_item: fields[i].is_array });
            },
        }
        i = i + 1;
    }
    assert(fields@.take(i as int) =~= fields@);
    Ok(steps)
}

/// Once a prefix of the fields fails, every longer prefix fails the same way.
proof fn lemma_plan_error_persists(fields: Seq<FieldInfo>, k: int)
    requires
        0 <= k <= fields.len(),
        spec_plan(fields.take(k)) is Err,
    ensures
        spec_plan(fields) == spec_plan(fields.take(k)),
    decreases fields.len() - k,
{
    if k < fields.len() {
        let next = fields.take(k + 1);
        assert(next.drop_last() =~= fields.take(k));
        lemma_plan_error_persists(fields, k + 1);
    } else {
        assert(fields.take(k) =~= fields);
    }
}

} // verus!
