use vstd::prelude::*;
use vstd::string::StringExecFns;
use vstd::string::StrSliceExecFns;
use crate::misc::tools::str_eq;
use crate::misc::Error;
use super::LibraryFeature;
use super::LibraryFeatures;

verus! {

/// The parts of `s` between its commas, in order. A text without a comma
/// is one part; so is the empty text.
pub open spec fn pieces(s: Seq<char>) -> Seq<Seq<char>>
    decreases s.len(),
{
    if s.len() == 0 {
        seq![Seq::<char>::empty()]
    } else {
        let init = pieces(s.drop_last());
        if s.last() == ',' {
            init.push(Seq::<char>::empty())
        } else {
            init.update(init.len() - 1, init.last().push(s.last()))
        }
    }
}

impl LibraryFeature {
    /// The feature that `name` stands for: every name but that of a
    /// feature stands for `NoFeature`.
    pub open spec fn named(name: Seq<char>) -> LibraryFeature {
        if name == "generate_thumbnail_at_adding"@ {
            LibraryFeature::GenerateThumbnailAtAdding
        } else {
            LibraryFeature::NoFeature
        }
    }

    /// The feature's name.
    pub open spec fn name(&self) -> Seq<char> {
        match self {
            LibraryFeature::NoFeature => "None"@,
            LibraryFeature::GenerateThumbnailAtAdding => "generate_thumbnail_at_adding"@,
        }
    }

    /// Reads a feature name.
    pub fn parse(s: &str) -> (r: LibraryFeature)
        ensures
            r == LibraryFeature::named(s@),
    {
        if str_eq(s, "generate_thumbnail_at_adding") {
            LibraryFeature::GenerateThumbnailAtAdding
        } else {
            LibraryFeature::NoFeature
        }
    }

    pub fn to_string(&self) -> (r: String)
        ensures
            r@ == self.name(),
    {
        match self {
            LibraryFeature::NoFeature => String::from_str("None"),
            LibraryFeature::GenerateThumbnailAtAdding => String::from_str(
                "generate_thumbnail_at_adding",
            ),
        }
    }
}

impl std::str::FromStr for LibraryFeature {
    type Err = Error;

    /// Reads a feature name. Never fails: a name that no feature has
    /// stands for `NoFeature`.
    fn from_str(s: &str) -> (r: Result<LibraryFeature, Error>)
        ensures
            r == Ok::<LibraryFeature, Error>(LibraryFeature::named(s@)),
    {
        Ok(LibraryFeature::parse(s))
    }
}

/// The features that the parts of `parts` name.
pub open spec fn features_named(parts: Seq<Seq<char>>) -> Set<LibraryFeature> {
    Set::new(
        |f: LibraryFeature|
            exists|i: int| 0 <= i < parts.len() && LibraryFeature::named(#[trigger] parts[i]) == f,
    )
}

/// One part more names one feature more.
pub proof fn lemma_features_push(parts: Seq<Seq<char>>, part: Seq<char>)
    ensures
        features_named(parts.push(part)) == features_named(parts).insert(
            LibraryFeature::named(part),
        ),
{
    let grown = parts.push(part);
    let f = LibraryFeature::named(part);
    assert forall|g: LibraryFeature| features_named(grown).contains(g) implies features_named(
        parts,
    ).insert(f).contains(g) by {
        let k = choose|k: int| 0 <= k < grown.len() && LibraryFeature::named(#[trigger] grown[k]) == g;
        if k < parts.len() {
            assert(parts[k] == grown[k]);
        }
    }
    assert forall|g: LibraryFeature| features_named(parts).insert(f).contains(
        g,
    ) implies features_named(grown).contains(g) by {
        if g == f {
            assert(LibraryFeature::named(grown[parts.len() as int]) == g);
        } else {
            let k = choose|k: int| 0 <= k < parts.len() && LibraryFeature::named(#[trigger] parts[k]) == g;
            assert(grown[k] == parts[k]);
        }
    }
    assert(features_named(grown) =~= features_named(parts).insert(f));
}

/// The text of a set of features: their names in the order of their
/// declaration, with commas between.
pub open spec fn features_text(features: Set<LibraryFeature>) -> Seq<char> {
    if features.contains(LibraryFeature::NoFeature) {
        if features.contains(LibraryFeature::GenerateThumbnailAtAdding) {
            "None,generate_thumbnail_at_adding"@
        } else {
            "None"@
        }
    } else {
        if features.contains(LibraryFeature::GenerateThumbnailAtAdding) {
            "generate_thumbnail_at_adding"@
        } else {
            ""@
        }
    }
}

impl LibraryFeatures {
    /// No feature at all.
    pub fn new() -> (r: LibraryFeatures)
        ensures
            r@ == Set::<LibraryFeature>::empty(),
    {
        let r = LibraryFeatures { no_feature: false, generate_thumbnail_at_adding: false };
        assert(r@ =~= Set::<LibraryFeature>::empty());
        r
    }

    pub fn add(&mut self, feature: LibraryFeature)
        ensures
            final(self)@ == old(self)@.insert(feature),
    {
        match feature {
            LibraryFeature::NoFeature => {
                self.no_feature = true;
            },
            LibraryFeature::GenerateThumbnailAtAdding => {
                self.generate_thumbnail_at_adding = true;
            },
        }
        assert(self@ =~= old(self)@.insert(feature));
    }

    pub fn remove(&mut self, feature: LibraryFeature)
        ensures
            final(self)@ == old(self)@.remove(feature),
    {
        match feature {
            LibraryFeature::NoFeature => {
                self.no_feature = false;
            },
            LibraryFeature::GenerateThumbnailAtAdding => {
                self.generate_thumbnail_at_adding = false;
            },
        }
        assert(self@ =~= old(self)@.remove(feature));
    }

    pub fn contains(&self, feature: LibraryFeature) -> (r: bool)
        ensures
            r == self@.contains(feature),
    {
        match feature {
            LibraryFeature::NoFeature => self.no_feature,
            LibraryFeature::GenerateThumbnailAtAdding => self.generate_thumbnail_at_adding,
        }
    }

    /// The set with `feature` added.
    pub fn with(self, feature: LibraryFeature) -> (r: LibraryFeatures)
        ensures
            r@ == self@.insert(feature),
    {
        let mut p = self;
        p.add(feature);
        p
    }

    /// Reads a comma-separated list of feature names.
    pub fn parse(s: &str) -> (r: LibraryFeatures)
        ensures
            r@ == features_named(pieces(s@)),
    {
        let n: usize = s.unicode_len();
        let mut out = LibraryFeatures::new();
        let mut current = String::new();
        let ghost mut done: Seq<Seq<char>> = Seq::empty();
        let mut i: usize = 0;
        proof {
            assert(s@.take(0) =~= Seq::<char>::empty());
            assert(pieces(s@.take(0)) =~= done.push(current@));
            assert(out@ =~= features_named(done));
        }
        while i < n
            invariant
                n == s@.len(),
                i <= n,
                pieces(s@.take(i as int)) == done.push(current@),
                out@ == features_named(done),
            decreases n - i,
        {
            let c = s.get_char(i);
            proof {
                assert(s@.take(i + 1).drop_last() =~= s@.take(i as int));
                assert(s@.take(i + 1).last() == c);
            }
            if c == ',' {
                let f = LibraryFeature::parse(current.as_str());
                out.add(f);
                proof {
                    lemma_features_push(done, current@);
                    done = done.push(current@);
                }
                current = String::new();
                proof {
                    assert(pieces(s@.take(i + 1)) =~= done.push(current@));
                }
            } else {
                let ghost was = current@;
                current.append(s.substring_char(i, i + 1));
                proof {
                    assert(s@.subrange(i as int, i + 1) =~= seq![c]);
                    assert(current@ =~= was.push(c));
                    assert(pieces(s@.take(i + 1)) =~= done.push(current@));
                }
            }
            i += 1;
        }
        proof {
            assert(s@.take(n as int) =~= s@);
        }
        let f = LibraryFeature::parse(current.as_str());
        out.add(f);
        proof {
            lemma_features_push(done, current@);
        }
        out
    }

    /// The names of the features, with commas between.
    pub fn to_string(&self) -> (r: String)
        ensures
            r@ == features_text(self@),
    {
        if self.no_feature {
            if self.generate_thumbnail_at_adding {
                String::from_str("None,generate_thumbnail_at_adding")
            } else {
                String::from_str("None")
            }
        } else {
            if self.generate_thumbnail_at_adding {
                String::from_str("generate_thumbnail_at_adding")
            } else {
                String::from_str("")
            }
        }
    }
}

impl std::str::FromStr for LibraryFeatures {
    type Err = Error;

    /// Reads a comma-separated list of feature names. Never fails.
    fn from_str(s: &str) -> (r: Result<LibraryFeatures, Error>)
        ensures
            r matches Ok(f) && f@ == features_named(pieces(s@)),
    {
        Ok(LibraryFeatures::parse(s))
    }
}

} // verus!
