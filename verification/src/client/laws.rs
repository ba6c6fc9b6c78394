//! What holds of the calling side of a peer whatever it is told.

use crate::client::rpc_caller::{handled, Command, Effect, Outgoing};
use vstd::prelude::*;

verus! {

/// What is to be done on account of a sequence of commands that are handled
/// one after the other, in order.
pub open spec fn effects(outgoing: Outgoing, commands: Seq<Command>) -> Seq<Effect>
    decreases commands.len(),
{
    if commands.len() == 0 {
        Seq::empty()
    } else {
        let first = handled(outgoing, commands[0]);
        seq![first.effect] + effects(first.outgoing, commands.skip(1))
    }
}

/// The books after a sequence of commands.
pub open spec fn books(outgoing: Outgoing, commands: Seq<Command>) -> Outgoing
    decreases commands.len(),
{
    if commands.len() == 0 {
        outgoing
    } else {
        books(handled(outgoing, commands[0]).outgoing, commands.skip(1))
    }
}

/// Order is kept: what is to be done on account of earlier commands comes
/// before what is to be done on account of later ones.
pub proof fn lemma_effects_in_order(outgoing: Outgoing, earlier: Seq<Command>, later: Seq<Command>)
    ensures
        books(outgoing, earlier + later) == books(books(outgoing, earlier), later),
        effects(outgoing, earlier + later) == effects(outgoing, earlier) + effects(
            books(outgoing, earlier),
            later,
        ),
    decreases earlier.len(),
{
    if earlier.len() == 0 {
        assert(earlier + later =~= later);
        assert(effects(outgoing, earlier) + effects(outgoing, later) =~= effects(outgoing, later));
    } else {
        let first = handled(outgoing, earlier[0]);
        assert((earlier + later)[0] == earlier[0]);
        assert((earlier + later).skip(1) =~= earlier.skip(1) + later);
        lemma_effects_in_order(first.outgoing, earlier.skip(1), later);
        let middle = effects(first.outgoing, earlier.skip(1));
        let tail = effects(books(first.outgoing, earlier.skip(1)), later);
        assert(seq![first.effect] + (middle + tail) =~= (seq![first.effect] + middle) + tail);
    }
}

/// The handing over of a final result of the call with this context id.
pub open spec fn hands_over_final(context: Seq<char>) -> spec_fn(Effect) -> bool {
    |e: Effect|
        match e {
            Effect::Deliver(_, response) => response.context@ == context && response.kind is Last,
            _ => false,
        }
}

/// The making of a call with this context id.
pub open spec fn makes_call(context: Seq<char>) -> spec_fn(Command) -> bool {
    |c: Command|
        match c {
            Command::OutgoingCall(id, _, _) => id@ == context,
            _ => false,
        }
}

/// How many final results of the call with this context id are handed over.
pub open spec fn finals_handed_over(done: Seq<Effect>, context: Seq<char>) -> nat {
    done.filter(hands_over_final(context)).len()
}

/// The count over one effect and then others.
proof fn lemma_count(first: Effect, rest: Seq<Effect>, context: Seq<char>)
    ensures
        finals_handed_over(seq![first] + rest, context) == finals_handed_over(rest, context) + (
        if hands_over_final(context)(first) {
            1nat
        } else {
            0nat
        }),
{
    reveal(Seq::filter);
    Seq::filter_distributes_over_add(seq![first], rest, hands_over_final(context));
    assert(seq![first].drop_last() =~= Seq::<Effect>::empty());
    assert(Seq::<Effect>::empty().filter(hands_over_final(context)) =~= Seq::<Effect>::empty());
    assert(seq![first].filter(hands_over_final(context)).len() == (if hands_over_final(context)(
        first,
    ) {
        1nat
    } else {
        0nat
    }));
}

/// A caller is handed the final result of a call at most once: whatever
/// arrives, the loop hands over at most one final result for a call that it
/// has on its books, and none for a call that it has not, as long as no new
/// call is made under the same context id. Once the final result is handed
/// over, the call is off the books.
pub proof fn lemma_one_final_per_call(outgoing: Outgoing, commands: Seq<Command>, context: Seq<char>)
    requires
        forall|k: int| 0 <= k < commands.len() ==> !makes_call(context)(#[trigger] commands[k]),
    ensures
        finals_handed_over(effects(outgoing, commands), context) <= 1,
        !outgoing.contains_key(context) ==> finals_handed_over(effects(outgoing, commands), context)
            == 0,
        finals_handed_over(effects(outgoing, commands), context) == 1 ==> !books(
            outgoing,
            commands,
        ).contains_key(context),
        !outgoing.contains_key(context) ==> !books(outgoing, commands).contains_key(context),
    decreases commands.len(),
{
    if commands.len() == 0 {
        reveal(Seq::filter);
        assert(effects(outgoing, commands).filter(hands_over_final(context)) =~= Seq::<
            Effect,
        >::empty());
    } else {
        let first = handled(outgoing, commands[0]);
        let rest = commands.skip(1);
        assert(!makes_call(context)(commands[0]));
        assert forall|k: int| 0 <= k < rest.len() implies !makes_call(context)(#[trigger] rest[k]) by {
            assert(rest[k] == commands[k + 1]);
        }
        lemma_one_final_per_call(first.outgoing, rest, context);
        lemma_count(first.effect, effects(first.outgoing, rest), context);
    }
}

} // verus!
