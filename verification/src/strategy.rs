//! The immutable set of capability flags selecting which transformation
//! rules are active for a run.

use vstd::prelude::*;
use vstd::string::StringExecFns;

verus! {

/// A fixed-size flag structure over the three transformation rule
/// categories. Built once per run from user-selected names and read-only
/// thereafter; its entire value is "is flag X set".
#[derive(Clone, Copy, PartialEq, Eq, Structural, Debug)]
pub struct StrategySet {
    /// Strip the fill of qualifying redaction rectangles.
    pub geometry_strip: bool,
    /// Suppress decorative annotations and report the rest.
    pub annotation_suppress: bool,
    /// Blank near-uniform raster images.
    pub image_blank: bool,
}

/// A configuration error: a strategy name that no rule category carries.
#[derive(Debug)]
pub struct UnknownStrategyError {
    /// The offending name, exactly as the caller supplied it.
    pub name: String,
}

proof fn lemma_push_contains(s: Seq<Seq<char>>, v: Seq<char>, x: Seq<char>)
    ensures
        s.push(v).contains(x) <==> (s.contains(x) || v == x),
{
    if s.contains(x) {
        let j = choose|j: int| 0 <= j < s.len() && s[j] == x;
        assert(s.push(v)[j] == x);
    }
    if v == x {
        assert(s.push(v)[s.len() as int] == x);
    }
    if s.push(v).contains(x) {
        let j = choose|j: int| 0 <= j < s.push(v).len() && s.push(v)[j] == x;
        if j < s.len() {
            assert(s[j] == x);
        }
    }
}

/// Whether a name selects one of the three rule categories.
pub open spec fn is_known_strategy_name(s: Seq<char>) -> bool {
    s == "rect"@ || s == "annotation"@ || s == "image"@
}

/// The set selected by one list of names: a flag is active iff its name
/// occurs anywhere in the list. Order-independent and duplicate-tolerant.
pub open spec fn strategies_of_names(names: Seq<Seq<char>>) -> StrategySet {
    StrategySet {
        geometry_strip: names.contains("rect"@),
        annotation_suppress: names.contains("annotation"@),
        image_blank: names.contains("image"@),
    }
}

impl StrategySet {
    /// The set with no rule active: every transformation is skipped.
    pub fn empty() -> (r: StrategySet)
        ensures
            !r.geometry_strip,
            !r.annotation_suppress,
            !r.image_blank,
    {
        StrategySet { geometry_strip: false, annotation_suppress: false, image_blank: false }
    }

    /// Builds the set from user-selected names. An unknown name is a
    /// configuration error carrying that name, reported before any file is
    /// processed; it is never a silent no-op.
    pub fn from_names(names: &Vec<String>) -> (r: Result<StrategySet, UnknownStrategyError>)
        ensures
            r is Ok <==> (forall|i: int|
                0 <= i < names@.len() ==> is_known_strategy_name(#[trigger] names@[i]@)),
            r is Ok ==> r->Ok_0 == strategies_of_names(names@.map_values(|n: String| n@)),
            r is Err ==> exists|i: int|
                0 <= i < names@.len() && names@[i]@ == #[trigger] r->Err_0.name@
                    && !is_known_strategy_name(names@[i]@),
    {
        let mut set = StrategySet {
            geometry_strip: false,
            annotation_suppress: false,
            image_blank: false,
        };
        let rect_name = String::from_str("rect");
        let annotation_name = String::from_str("annotation");
        let image_name = String::from_str("image");
        let mut i: usize = 0;
        while i < names.len()
            invariant
                0 <= i <= names@.len(),
                rect_name@ == "rect"@,
                annotation_name@ == "annotation"@,
                image_name@ == "image"@,
                forall|j: int| 0 <= j < i ==> is_known_strategy_name(#[trigger] names@[j]@),
                set.geometry_strip <==> names@.map_values(|n: String| n@).take(i as int).contains(
                    "rect"@,
                ),
                set.annotation_suppress <==> names@.map_values(|n: String| n@).take(
                    i as int,
                ).contains("annotation"@),
                set.image_blank <==> names@.map_values(|n: String| n@).take(i as int).contains(
                    "image"@,
                ),
            decreases names@.len() - i,
        {
            let name = &names[i];
            if *name == rect_name {
                set.geometry_strip = true;
            } else if *name == annotation_name {
                set.annotation_suppress = true;
            } else if *name == image_name {
                set.image_blank = true;
            } else {
                return Err(UnknownStrategyError { name: name.clone() });
            }
            proof {
                reveal_strlit("rect");
                reveal_strlit("annotation");
                reveal_strlit("image");
                assert("rect"@.len() == 4);
                assert("annotation"@.len() == 10);
                assert("image"@.len() == 5);
                let mapped = names@.map_values(|n: String| n@);
                let prev = mapped.take(i as int);
                let entry = names@[i as int]@;
                assert(mapped.take(i + 1 as int) =~= prev.push(entry));
                lemma_push_contains(prev, entry, "rect"@);
                lemma_push_contains(prev, entry, "annotation"@);
                lemma_push_contains(prev, entry, "image"@);
            }
            i = i + 1;
        }
        proof {
            let mapped = names@.map_values(|n: String| n@);
            assert(mapped.take(names@.len() as int) =~= mapped);
        }
        Ok(set)
    }
}

} // verus!
