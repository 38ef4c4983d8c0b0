//! A migration as a document states it, and the rules by which a document
//! becomes a migration.

use crate::migration::{Migration, MigrationView};
use crate::text::same_text;
use crate::transformation::{Transformation, TransformationType, TransformationView};
use vstd::prelude::*;

verus! {

/// One rule as a document states it: the kind by its name, and a replacement
/// that may be missing.
#[derive(PartialEq, Debug)]
pub struct TransformationDocument {
    pub kind: String,
    pub matcher: String,
    pub replacement: Option<String>,
}

/// A migration as a document states it.
#[derive(PartialEq, Debug)]
pub struct MigrationDocument {
    pub name: String,
    pub description: String,
    pub transformations: Vec<TransformationDocument>,
}

/// Why a document is no migration. The position is that of the rule at
/// fault, counted from zero.
#[derive(Clone, Copy, PartialEq, Eq, Debug)]
pub enum LoadError {
    /// The rule's kind is neither `MOVE` nor `RM`.
    UnknownKind { position: usize },
    /// The rule is a move and states no replacement.
    MissingReplacement { position: usize },
}

/// What a [`TransformationDocument`] stands for.
pub struct TransformationDocumentView {
    pub kind: Seq<char>,
    pub matcher: Seq<char>,
    pub replacement: Option<Seq<char>>,
}

/// What a [`MigrationDocument`] stands for.
pub struct MigrationDocumentView {
    pub name: Seq<char>,
    pub description: Seq<char>,
    pub transformations: Seq<TransformationDocumentView>,
}

impl View for TransformationDocument {
    type V = TransformationDocumentView;

    open spec fn view(&self) -> TransformationDocumentView {
        TransformationDocumentView {
            kind: self.kind@,
            matcher: self.matcher@,
            replacement: match self.replacement {
                Some(replacement) => Some(replacement@),
                None => None,
            },
        }
    }
}

/// What the rules of `rules` stand for, in order.
pub open spec fn rule_views(rules: Seq<TransformationDocument>) -> Seq<
    TransformationDocumentView,
> {
    rules.map_values(|rule: TransformationDocument| rule@)
}

impl View for MigrationDocument {
    type V = MigrationDocumentView;

    open spec fn view(&self) -> MigrationDocumentView {
        MigrationDocumentView {
            name: self.name@,
            description: self.description@,
            transformations: rule_views(self.transformations@),
        }
    }
}

/// The kind that a document calls `name`.
pub open spec fn kind_named(name: Seq<char>) -> Option<TransformationType> {
    if name == "MOVE"@ {
        Some(TransformationType::MV)
    } else if name == "RM"@ {
        Some(TransformationType::RM)
    } else {
        None
    }
}

impl TransformationDocumentView {
    /// The rule that the document states at `position`. The kind must be
    /// known. A move must state its replacement; a removal has no use for
    /// one, and where it states none the rule holds the empty text.
    pub open spec fn decode(self, position: int) -> Result<TransformationView, LoadError> {
        match kind_named(self.kind) {
            None => Err(LoadError::UnknownKind { position: position as usize }),
            Some(TransformationType::MV) => match self.replacement {
                Some(replacement) => Ok(
                    TransformationView {
                        kind: TransformationType::MV,
                        matcher: self.matcher,
                        replacement,
                    },
                ),
                None => Err(LoadError::MissingReplacement { position: position as usize }),
            },
            Some(TransformationType::RM) => Ok(
                TransformationView {
                    kind: TransformationType::RM,
                    matcher: self.matcher,
                    replacement: match self.replacement {
                        Some(replacement) => replacement,
                        None => Seq::empty(),
                    },
                },
            ),
        }
    }
}

/// The rules that `rules` state, in the order of the document, or the error
/// of the first rule that is at fault.
pub open spec fn decode_rules(rules: Seq<TransformationDocumentView>) -> Result<
    Seq<TransformationView>,
    LoadError,
>
    decreases rules.len(),
{
    if rules.len() == 0 {
        Ok(Seq::empty())
    } else {
        match decode_rules(rules.drop_last()) {
            Ok(decoded) => match rules.last().decode(rules.len() - 1) {
                Ok(rule) => Ok(decoded.push(rule)),
                Err(error) => Err(error),
            },
            Err(error) => Err(error),
        }
    }
}

impl MigrationDocumentView {
    /// The migration that the document states: its name, its description and
    /// its rules in their order.
    pub open spec fn decode(self) -> Result<MigrationView, LoadError> {
        match decode_rules(self.transformations) {
            Ok(transformations) => Ok(
                MigrationView { name: self.name, description: self.description, transformations },
            ),
            Err(error) => Err(error),
        }
    }
}

/// Where the rules of a document decode, there is one rule for each rule of
/// the document, at the same position.
pub proof fn lemma_decode_keeps_order(rules: Seq<TransformationDocumentView>)
    requires
        decode_rules(rules) is Ok,
    ensures
        decode_rules(rules)->Ok_0.len() == rules.len(),
        forall|i: int|
            0 <= i < rules.len() ==> rules[i].decode(i) == Ok::<TransformationView, LoadError>(
                decode_rules(rules)->Ok_0[i],
            ),
    decreases rules.len(),
{
    if rules.len() > 0 {
        let front = rules.drop_last();
        lemma_decode_keeps_order(front);
        let decoded = decode_rules(front)->Ok_0;
        let all = decode_rules(rules)->Ok_0;
        assert(all == decoded.push(rules.last().decode(rules.len() - 1)->Ok_0));
        assert forall|i: int| 0 <= i < rules.len() implies rules[i].decode(i) == Ok::<
            TransformationView,
            LoadError,
        >(all[i]) by {
            if i < rules.len() - 1 {
                assert(rules[i] == front[i]);
                assert(all[i] == decoded[i]);
            }
        }
    }
}

impl TransformationType {
    /// The kind that a document calls `name`, if it is the name of one.
    pub fn from_name(name: &str) -> (kind: Option<TransformationType>)
        ensures
            kind == kind_named(name@),
    {
        if same_text(name, "MOVE") {
            Some(TransformationType::MV)
        } else if same_text(name, "RM") {
            Some(TransformationType::RM)
        } else {
            None
        }
    }
}

impl TransformationDocument {
    /// The rule that this document states at `position`.
    pub fn decode(&self, position: usize) -> (result: Result<Transformation, LoadError>)
        ensures
            result matches Ok(rule) ==> self@.decode(position as int) == Ok::<
                TransformationView,
                LoadError,
            >(rule@),
            result matches Err(error) ==> self@.decode(position as int) == Err::<
                TransformationView,
                LoadError,
            >(error),
    {
        match TransformationType::from_name(self.kind.as_str()) {
            None => Err(LoadError::UnknownKind { position }),
            Some(TransformationType::MV) => match &self.replacement {
                Some(replacement) => Ok(
                    Transformation {
                        kind: TransformationType::MV,
                        matcher: self.matcher.clone(),
                        replacement: replacement.clone(),
                    },
                ),
                None => Err(LoadError::MissingReplacement { position }),
            },
            Some(TransformationType::RM) => Ok(
                Transformation {
                    kind: TransformationType::RM,
                    matcher: self.matcher.clone(),
                    replacement: match &self.replacement {
                        Some(replacement) => replacement.clone(),
                        None => String::new(),
                    },
                },
            ),
        }
    }
}

impl Migration {
    /// The migration that `document` states, or the error of its first rule
    /// that is at fault.
    pub fn from_document(document: &MigrationDocument) -> (result: Result<Migration, LoadError>)
        ensures
            result matches Ok(migration) ==> document@.decode() == Ok::<MigrationView, LoadError>(
                migration@,
            ),
            result matches Err(error) ==> document@.decode() == Err::<MigrationView, LoadError>(
                error,
            ),
            result matches Ok(migration) ==> migration@.transformations.len()
                == document@.transformations.len(),
            result matches Ok(migration) ==> forall|i: int|
                0 <= i < document@.transformations.len() ==> document@.transformations[i].decode(i)
                    == Ok::<TransformationView, LoadError>(migration@.transformations[i]),
    {
        let ghost rules = document@.transformations;
        let mut transformations: Vec<Transformation> = Vec::new();
        let mut i: usize = 0;
        proof {
            assert(crate::migration::transformation_views(transformations@) =~= Seq::empty());
        }
        while i < document.transformations.len()
            invariant
                i <= document.transformations@.len(),
                rules == document@.transformations,
                decode_rules(rules.take(i as int)) == Ok::<Seq<TransformationView>, LoadError>(
                    crate::migration::transformation_views(transformations@),
                ),
            decreases document.transformations@.len() - i,
        {
            let ghost before = crate::migration::transformation_views(transformations@);
            proof {
                assert(rules.take(i + 1).drop_last() =~= rules.take(i as int));
                assert(rules.take(i + 1).last() == document.transformations@[i as int]@);
            }
            match document.transformations[i].decode(i) {
                Ok(rule) => {
                    transformations.push(rule);
                    proof {
                        assert(crate::migration::transformation_views(transformations@)
                            =~= before.push(rule@));
                    }
                },
                Err(error) => {
                    proof {
                        lemma_decode_fails_on(rules, i as int);
                    }
                    return Err(error);
                },
            }
            i += 1;
        }
        proof {
            assert(rules.take(i as int) =~= rules);
            lemma_decode_keeps_order(rules);
        }
        Ok(
            Migration {
                name: document.name.clone(),
                description: document.description.clone(),
                transformations,
            },
        )
    }
}

/// Where the rules before `at` decode and the rule at `at` does not, the
/// whole list fails with that rule's error.
proof fn lemma_decode_fails_on(rules: Seq<TransformationDocumentView>, at: int)
    requires
        0 <= at < rules.len(),
        decode_rules(rules.take(at)) is Ok,
        rules[at].decode(at) is Err,
    ensures
        decode_rules(rules) == Err::<Seq<TransformationView>, LoadError>(
            rules[at].decode(at)->Err_0,
        ),
    decreases rules.len(),
{
    if at == rules.len() - 1 {
        assert(rules.drop_last() =~= rules.take(at));
    } else {
        assert(rules.drop_last().take(at) =~= rules.take(at));
        lemma_decode_fails_on(rules.drop_last(), at);
    }
}

} // verus!
