//! The parser of the level format.
//!
//! A level is text: entities in braces, each a list of quoted properties and
//! of brushes, each brush a list of faces in braces. Whitespace and comments
//! from `//` to the end of the line may stand between any two tokens. The
//! first thing that does not fit ends the parse: there is no partial result.

pub mod components;
pub mod error_laws;
pub mod grammar;
pub mod property_laws;
pub mod util;

use crate::data::{entities_view, Entity, EntityModel, QuakeMap};
use crate::parsing::components::{entities_joined, entity, lemma_entities_joined_push};
use crate::parsing::grammar::{
    byte_at, parse_entities, parse_level, skip_ignored, Rule, SyntaxError,
};
use crate::parsing::util::ignored;
use vstd::prelude::*;
use vstd::string::StringSliceAdditionalSpecFns;

verus! {

/// Parses a whole level from its bytes: one entity or more, with nothing
/// behind them but whitespace and comments.
pub fn parse_level_bytes(input: &[u8]) -> (r: Result<QuakeMap, SyntaxError>)
    ensures
        match r {
            Ok(map) => parse_level(input@) == Ok::<Seq<EntityModel>, SyntaxError>(map@),
            Err(e) => parse_level(input@) == Err::<Seq<EntityModel>, SyntaxError>(e),
        },
{
    let first = ignored(input, 0);
    if first >= input.len() || input[first] != 123 {
        return Err(SyntaxError { rule: Rule::Level, position: first });
    }
    let mut entities: Vec<Entity> = Vec::new();
    let mut pos = first;
    let ghost total = parse_entities(input@, first as int);
    proof {
        assert(entities_view(entities@) =~= Seq::<EntityModel>::empty());
        lemma_entities_joined_empty(total);
    }
    loop
        invariant
            pos <= input@.len(),
            first == skip_ignored(input@, 0),
            byte_at(input@, first as int) == Some(123u8),
            total == parse_entities(input@, first as int),
            total == entities_joined(entities_view(entities@), parse_entities(input@, pos as int)),
        decreases input.len() - pos,
    {
        if pos >= input.len() || input[pos] != 123 {
            proof {
                assert(entities_view(entities@) + Seq::<EntityModel>::empty() =~= entities_view(
                    entities@,
                ));
            }
            if pos == input.len() {
                return Ok(QuakeMap { entities });
            } else {
                return Err(SyntaxError { rule: Rule::Level, position: pos });
            }
        }
        let ghost done = entities_view(entities@);
        match entity(input, pos) {
            Err(e) => {
                return Err(e);
            },
            Ok((found, end)) => {
                let next = ignored(input, end);
                proof {
                    lemma_entities_joined_push(done, found@, parse_entities(input@, next as int));
                }
                entities.push(found);
                proof {
                    assert(entities_view(entities@) =~= done.push(found@));
                }
                pos = next;
            },
        }
    }
}

proof fn lemma_entities_joined_empty(rest: Result<(Seq<EntityModel>, int), SyntaxError>)
    ensures
        entities_joined(Seq::empty(), rest) == rest,
{
    match rest {
        Ok((entities, end)) => {
            assert(Seq::<EntityModel>::empty() + entities =~= entities);
        },
        Err(e) => {},
    }
}

/// Parses the text of a whole level: one entity or more, with nothing
/// behind them but whitespace and comments. The first thing that does not
/// fit ends the parse with the innermost rule that was being matched and
/// the position, in bytes, where it stopped matching.
pub fn parse_map(i: &str) -> (r: Result<QuakeMap, SyntaxError>)
    ensures
        match r {
            Ok(map) => parse_level(i.spec_bytes()) == Ok::<Seq<EntityModel>, SyntaxError>(map@),
            Err(e) => parse_level(i.spec_bytes()) == Err::<Seq<EntityModel>, SyntaxError>(e),
        },
{
    parse_level_bytes(i.as_bytes())
}

} // verus!
