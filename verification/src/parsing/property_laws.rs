//! What holds of the properties of every parsed entity.

use crate::data::properties::{lemma_with_property_unique, unique_names, with_property};
use crate::parsing::grammar::{
    byte_at, lemma_entity_bounds, lemma_skip_ignored_bounds, lemma_string_bounds, parse_entities,
    parse_entity, parse_level, parse_properties_into, parse_string, quote, skip_ignored,
};
use vstd::prelude::*;

verus! {

proof fn lemma_properties_into_unique(input: Seq<u8>, pos: int, done: Seq<(Seq<u8>, Seq<u8>)>)
    requires
        0 <= pos <= input.len(),
        unique_names(done),
        parse_properties_into(input, pos, done) is Ok,
    ensures
        unique_names((parse_properties_into(input, pos, done)->Ok_0).0),
    decreases input.len() - pos,
{
    if byte_at(input, pos) == Some(quote()) {
        lemma_string_bounds(input, pos);
        let first = parse_string(input, pos)->Ok_0;
        lemma_skip_ignored_bounds(input, first.1);
        lemma_string_bounds(input, skip_ignored(input, first.1));
        let second = parse_string(input, skip_ignored(input, first.1))->Ok_0;
        lemma_skip_ignored_bounds(input, second.1);
        lemma_with_property_unique(done, first.0, second.0);
        lemma_properties_into_unique(
            input,
            skip_ignored(input, second.1),
            with_property(done, first.0, second.0),
        );
    }
}

/// A parsed entity has one property for each name.
pub proof fn lemma_entity_properties_unique(input: Seq<u8>, pos: int)
    requires
        0 <= pos <= input.len(),
        parse_entity(input, pos) is Ok,
    ensures
        unique_names((parse_entity(input, pos)->Ok_0).0.properties),
{
    lemma_skip_ignored_bounds(input, pos + 1);
    lemma_properties_into_unique(input, skip_ignored(input, pos + 1), Seq::empty());
}

proof fn lemma_entities_properties_unique(input: Seq<u8>, pos: int)
    requires
        0 <= pos <= input.len(),
        parse_entities(input, pos) is Ok,
    ensures
        forall|e: int|
            0 <= e < (parse_entities(input, pos)->Ok_0).0.len() ==> unique_names(
                (#[trigger] (parse_entities(input, pos)->Ok_0).0[e]).properties,
            ),
    decreases input.len() - pos,
{
    if byte_at(input, pos) == Some(123u8) {
        lemma_entity_bounds(input, pos);
        lemma_entity_properties_unique(input, pos);
        let first = parse_entity(input, pos)->Ok_0;
        lemma_skip_ignored_bounds(input, first.1);
        let next = skip_ignored(input, first.1);
        lemma_entities_properties_unique(input, next);
        let rest = (parse_entities(input, next)->Ok_0).0;
        let all = (parse_entities(input, pos)->Ok_0).0;
        assert(all == seq![first.0] + rest);
        assert forall|e: int| 0 <= e < all.len() implies unique_names(
            (#[trigger] all[e]).properties,
        ) by {
            if e > 0 {
                assert(all[e] == rest[e - 1]);
            }
        }
    }
}

/// Every entity of a parsed level has one property for each name: where
/// the text gives a name more than once, the entity holds the name once,
/// with the value given last.
pub proof fn lemma_level_properties_unique(input: Seq<u8>)
    requires
        parse_level(input) is Ok,
    ensures
        forall|e: int|
            0 <= e < (parse_level(input)->Ok_0).len() ==> unique_names(
                (#[trigger] (parse_level(input)->Ok_0)[e]).properties,
            ),
{
    lemma_skip_ignored_bounds(input, 0);
    lemma_entities_properties_unique(input, skip_ignored(input, 0));
}

} // verus!
