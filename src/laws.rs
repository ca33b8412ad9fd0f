//! Properties of the dispatch loop that span several events.

use crate::app::{is_composing, AppModel, CurrentScreen, MessageType};
use crate::dispatch::{event_action, event_model, key_action, key_model, name_command, ActionView, KeyCode, LoopEvent};
use vstd::prelude::*;

verus! {

/// The state after a sequence of loop events, applied in order.
pub open spec fn run_events(m: AppModel, es: Seq<LoopEvent>) -> AppModel
    decreases es.len(),
{
    if es.len() == 0 {
        m
    } else {
        event_model(run_events(m, es.drop_last()), es.last())
    }
}

/// The state after a sequence of key presses, applied in order.
pub open spec fn run_keys(m: AppModel, ks: Seq<KeyCode>) -> AppModel
    decreases ks.len(),
{
    if ks.len() == 0 {
        m
    } else {
        key_model(run_keys(m, ks.drop_last()), ks.last())
    }
}

/// The events by which a sequence of messages arrives.
pub open spec fn arrivals(ms: Seq<MessageType>) -> Seq<LoopEvent> {
    Seq::new(ms.len(), |i: int| LoopEvent::Inbound(ms[i]))
}

/// Every key of `ks` types a character.
pub open spec fn all_chars(ks: Seq<KeyCode>) -> bool {
    forall|i: int| 0 <= i < ks.len() ==> (#[trigger] ks[i]) is Char
}

/// `n` presses of Backspace.
pub open spec fn backspaces(n: nat) -> Seq<KeyCode> {
    Seq::new(n, |i: int| KeyCode::Backspace)
}

/// After the arrival of messages, the store holds the old messages followed by
/// the new ones in arrival order, and the view is scrolled to the newest line;
/// nothing else changes.
pub proof fn lemma_arrivals_appended(m: AppModel, ms: Seq<MessageType>)
    ensures
        run_events(m, arrivals(ms)).messages == m.messages + ms,
        ms.len() > 0 ==> run_events(m, arrivals(ms)).scroll == 0,
        run_events(m, arrivals(ms)).screen == m.screen,
        run_events(m, arrivals(ms)).input == m.input,
    decreases ms.len(),
{
    if ms.len() == 0 {
        assert(m.messages + ms =~= m.messages);
    } else {
        lemma_arrivals_appended(m, ms.drop_last());
        assert(arrivals(ms).drop_last() =~= arrivals(ms.drop_last()));
        assert(m.messages + ms =~= (m.messages + ms.drop_last()).push(ms.last()));
    }
}

/// Starting from an empty store, N arrivals leave exactly those N messages, in
/// the order in which they came.
pub proof fn lemma_arrivals_from_empty(m: AppModel, ms: Seq<MessageType>)
    requires
        m.messages.len() == 0,
    ensures
        run_events(m, arrivals(ms)).messages == ms,
        run_events(m, arrivals(ms)).messages.len() == ms.len(),
{
    lemma_arrivals_appended(m, ms);
    assert(m.messages + ms =~= ms);
}

/// Key sequences compose: running `a + b` is running `a`, then `b`.
pub proof fn lemma_run_keys_concat(m: AppModel, a: Seq<KeyCode>, b: Seq<KeyCode>)
    ensures
        run_keys(m, a + b) == run_keys(run_keys(m, a), b),
    decreases b.len(),
{
    if b.len() == 0 {
        assert(a + b =~= a);
    } else {
        lemma_run_keys_concat(m, a, b.drop_last());
        assert((a + b).drop_last() =~= a + b.drop_last());
    }
}

/// On an editing screen, typing characters appends one character per key to
/// the buffer and changes nothing else.
pub proof fn lemma_typing_appends(m: AppModel, ks: Seq<KeyCode>)
    requires
        is_composing(m.screen),
        all_chars(ks),
    ensures
        run_keys(m, ks) == (AppModel { input: run_keys(m, ks).input, ..m }),
        run_keys(m, ks).input.len() == m.input.len() + ks.len(),
        run_keys(m, ks).input.subrange(0, m.input.len() as int) == m.input,
    decreases ks.len(),
{
    if ks.len() == 0 {
        assert(m.input.subrange(0, m.input.len() as int) =~= m.input);
    } else {
        let prev = ks.drop_last();
        assert(all_chars(prev)) by {
            assert forall|i: int| 0 <= i < prev.len() implies (#[trigger] prev[i]) is Char by {
                assert(prev[i] == ks[i]);
            }
        }
        assert(ks.last() is Char) by {
            assert(ks[ks.len() - 1] is Char);
        }
        lemma_typing_appends(m, prev);
        let p = run_keys(m, prev).input;
        assert(p.push(ks.last()->Char_0).subrange(0, m.input.len() as int) =~= p.subrange(0, m.input.len() as int));
    }
}

/// On an editing screen, `n` Backspaces remove the last `n` characters.
pub proof fn lemma_backspaces_truncate(m: AppModel, n: nat)
    requires
        is_composing(m.screen),
        n <= m.input.len(),
    ensures
        run_keys(m, backspaces(n)) == (AppModel { input: m.input.subrange(0, m.input.len() - n), ..m }),
    decreases n,
{
    if n == 0 {
        assert(m.input.subrange(0, m.input.len() as int) =~= m.input);
    } else {
        lemma_backspaces_truncate(m, (n - 1) as nat);
        assert(backspaces(n).drop_last() =~= backspaces((n - 1) as nat));
        let prev = m.input.subrange(0, m.input.len() - (n - 1));
        assert(prev.drop_last() =~= m.input.subrange(0, m.input.len() - n));
    }
}

/// Every key of `ks` types a character or is Backspace.
pub open spec fn all_edits(ks: Seq<KeyCode>) -> bool {
    forall|i: int| 0 <= i < ks.len() ==> ((#[trigger] ks[i]) is Char || ks[i] is Backspace)
}

/// On an editing screen, typing and erasing keeps the screen, and no key of
/// such a sequence asks for anything but a redraw.
pub proof fn lemma_edits_stay(m: AppModel, ks: Seq<KeyCode>)
    requires
        is_composing(m.screen),
        all_edits(ks),
    ensures
        run_keys(m, ks).screen == m.screen,
        forall|i: int| 0 <= i < ks.len() ==> key_action(#[trigger] run_keys(m, ks.take(i)), ks[i]) == ActionView::Redraw,
    decreases ks.len(),
{
    if ks.len() > 0 {
        let prev = ks.drop_last();
        assert(all_edits(prev)) by {
            assert forall|i: int| 0 <= i < prev.len() implies ((#[trigger] prev[i]) is Char || prev[i] is Backspace) by {
                assert(prev[i] == ks[i]);
            }
        }
        lemma_edits_stay(m, prev);
        assert(ks[ks.len() - 1] is Char || ks[ks.len() - 1] is Backspace);
        assert forall|i: int| 0 <= i < ks.len() implies key_action(#[trigger] run_keys(m, ks.take(i)), ks[i]) == ActionView::Redraw by {
            if i < ks.len() - 1 {
                assert(ks.take(i) =~= prev.take(i));
                assert(prev[i] == ks[i]);
            } else {
                assert(ks.take(i) =~= prev);
            }
        }
    }
}

/// On an editing screen, typing characters and then pressing Backspace as many
/// times brings the whole state back to where it was, and none of those key
/// presses asks for a write.
pub proof fn lemma_type_then_erase(m: AppModel, ks: Seq<KeyCode>)
    requires
        is_composing(m.screen),
        all_chars(ks),
    ensures
        run_keys(m, ks + backspaces(ks.len())) == m,
        forall|i: int| 0 <= i < ks.len() * 2 ==> key_action(
            #[trigger] run_keys(m, (ks + backspaces(ks.len())).take(i)),
            (ks + backspaces(ks.len()))[i],
        ) == ActionView::Redraw,
{
    lemma_run_keys_concat(m, ks, backspaces(ks.len()));
    lemma_typing_appends(m, ks);
    let mid = run_keys(m, ks);
    lemma_backspaces_truncate(mid, ks.len());
    let all = ks + backspaces(ks.len());
    assert(all_edits(all)) by {
        assert forall|i: int| 0 <= i < all.len() implies ((#[trigger] all[i]) is Char || all[i] is Backspace) by {
            if i < ks.len() {
                assert(all[i] == ks[i]);
            }
        }
    }
    lemma_edits_stay(m, all);
}

/// Enter on the composing screen asks to send the buffer and changes nothing
/// yet; a successful write then clears the buffer and returns to the main
/// screen, and a failed one leaves the state as it was before Enter.
pub proof fn lemma_send_outcome(m: AppModel)
    requires
        m.screen == CurrentScreen::ComposingMessage,
        m.input.len() > 0,
    ensures
        key_action(m, KeyCode::Enter) == ActionView::Send(m.input),
        key_model(m, KeyCode::Enter) == m,
        event_model(m, LoopEvent::SendResult { ok: true }) == (AppModel {
            screen: CurrentScreen::Main,
            input: Seq::empty(),
            ..m
        }),
        event_model(m, LoopEvent::SendResult { ok: false }) == m,
{
}

/// Enter on the username screen asks to send the name command and changes
/// nothing yet; a successful write sets the username, clears the buffer and
/// returns to the main screen, and a failed one leaves the state as it was.
pub proof fn lemma_name_outcome(m: AppModel)
    requires
        m.screen == CurrentScreen::SetUser,
    ensures
        key_action(m, KeyCode::Enter) == ActionView::Send(name_command(m.input)),
        key_model(m, KeyCode::Enter) == m,
        event_model(m, LoopEvent::SendResult { ok: true }) == (AppModel {
            screen: CurrentScreen::Main,
            input: Seq::empty(),
            username: Some(m.input),
            ..m
        }),
        event_model(m, LoopEvent::SendResult { ok: false }) == m,
{
}

/// Submitting an empty compose buffer asks for no write, whatever the key.
pub proof fn lemma_empty_submit_sends_nothing(m: AppModel, k: KeyCode)
    requires
        m.screen == CurrentScreen::ComposingMessage,
        m.input.len() == 0,
    ensures
        !(key_action(m, k) is Send),
{
}

/// From the main screen, opening the help screen and pressing any key comes
/// back to exactly the state left, with no write and no exit.
pub proof fn lemma_help_is_one_step(m: AppModel, k: KeyCode)
    requires
        m.screen == CurrentScreen::Main,
    ensures
        key_model(key_model(m, KeyCode::Char('h')), k) == m,
        key_action(m, KeyCode::Char('h')) == ActionView::Redraw,
        key_action(key_model(m, KeyCode::Char('h')), k) == ActionView::Redraw,
{
}

/// On the exit confirmation, only the confirm key ends the process, and the
/// cancel keys go back to the main screen leaving messages and buffer as they were.
pub proof fn lemma_exit_confirmation(m: AppModel, k: KeyCode)
    requires
        m.screen == CurrentScreen::Exiting,
    ensures
        (key_action(m, k) == ActionView::Quit) <==> k == KeyCode::Char('y'),
        (k == KeyCode::Char('n') || k == KeyCode::Char('q')) ==> key_model(m, k) == (AppModel { screen: CurrentScreen::Main, ..m }),
{
}

/// Once disconnected the session stays disconnected, whatever events follow.
pub proof fn lemma_disconnected_stays(m: AppModel, es: Seq<LoopEvent>)
    requires
        m.screen == CurrentScreen::Disconnected,
    ensures
        run_events(m, es).screen == CurrentScreen::Disconnected,
    decreases es.len(),
{
    if es.len() > 0 {
        lemma_disconnected_stays(m, es.drop_last());
    }
}

/// The closure of the relay on any connected screen disconnects the session,
/// and from then on no event asks for a write to the relay.
pub proof fn lemma_closure_stops_writes(m: AppModel, es: Seq<LoopEvent>, i: int)
    requires
        m.screen != CurrentScreen::Disconnected,
        0 <= i < es.len(),
    ensures
        event_model(m, LoopEvent::RelayClosed).screen == CurrentScreen::Disconnected,
        !(event_action(run_events(event_model(m, LoopEvent::RelayClosed), es.take(i)), es[i]) is Send),
{
    let d = event_model(m, LoopEvent::RelayClosed);
    lemma_disconnected_stays(d, es.take(i));
}

} // verus!
