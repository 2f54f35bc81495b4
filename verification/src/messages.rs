use vstd::prelude::*;

use crate::enigma::{
    enigmas_view, find_last, numbers_for, pairs_view, story_03, story_04, EnigmaKind, EnigmaKindView,
    EnigmaView, Enigmas,
};
use crate::text::{chars_of, str_eq, string_of};


verus! {

/// A story message: the key of its text, and the named values that fill
/// the text in, if any.
pub open spec fn msg_view(m: (String, Option<Vec<(String, String)>>)) -> MsgView {
    (
        m.0@,
        match m.1 {
            Some(v) => Some(pairs_view(v@)),
            None => None,
        },
    )
}

/// A story message as mathematical values.
pub type MsgView = (Seq<char>, Option<Seq<(Seq<char>, Seq<char>)>>);

/// The messages as mathematical values.
pub open spec fn msgs_view(v: Seq<(String, Option<Vec<(String, String)>>)>) -> Seq<MsgView> {
    Seq::new(v.len(), |i: int| msg_view(v[i]))
}

/// An event for the story box.
#[derive(Debug, PartialEq, Eq)]
pub enum StoryMessages {
    /// Messages to show one after the other.
    Display(Vec<(String, Option<Vec<(String, String)>>)>),
    /// Close the story box.
    Hide,
    /// Go to the next message.
    Next,
}

/// A story box event as mathematical values.
pub enum StoryEventView {
    Display(Seq<MsgView>),
    Hide,
    Next,
}

/// The event as mathematical values.
pub open spec fn event_view(e: StoryMessages) -> StoryEventView {
    match e {
        StoryMessages::Display(v) => StoryEventView::Display(msgs_view(v@)),
        StoryMessages::Hide => StoryEventView::Hide,
        StoryMessages::Next => StoryEventView::Next,
    }
}

/// What the story box does after an event.
#[derive(Debug, PartialEq, Eq)]
pub enum QueueAction {
    /// Show this message.
    Show((String, Option<Vec<(String, String)>>)),
    /// There is no message left: the box closes, and the message shown last
    /// is announced (its enigma, if any, is then checked).
    NoMore(String),
    /// Stop reading events until the next frame.
    Stop,
}

/// An action as mathematical values.
pub enum QueueActionView {
    Show(MsgView),
    NoMore(Seq<char>),
    Stop,
}

/// The action as mathematical values.
pub open spec fn action_view(a: QueueAction) -> QueueActionView {
    match a {
        QueueAction::Show(m) => QueueActionView::Show(msg_view(m)),
        QueueAction::NoMore(s) => QueueActionView::NoMore(s@),
        QueueAction::Stop => QueueActionView::Stop,
    }
}

/// The messages still to show, in order, and the message shown last.
pub struct QueueView {
    pub pending: Seq<MsgView>,
    pub latest: Seq<char>,
}

/// The story box's queue of messages.
#[derive(Debug)]
pub struct StoryQueue {
    /// The messages still to show, the next one last.
    stack: Vec<(String, Option<Vec<(String, String)>>)>,
    latest: String,
}

impl View for StoryQueue {
    type V = QueueView;

    closed spec fn view(&self) -> QueueView {
        QueueView {
            pending: Seq::new(
                self.stack@.len(),
                |i: int| msg_view(self.stack@[self.stack@.len() - 1 - i]),
            ),
            latest: self.latest@,
        }
    }
}

/// Shows the next message, or tells that there is none left.
pub open spec fn pop_spec(q: QueueView) -> (QueueView, QueueActionView) {
    if q.pending.len() == 0 {
        (q, QueueActionView::NoMore(q.latest))
    } else {
        (
            QueueView { pending: q.pending.drop_first(), latest: q.pending[0].0 },
            QueueActionView::Show(q.pending[0]),
        )
    }
}

/// The queue and the action after an event: new messages replace those
/// left and the first is shown; going to the next message shows it; a
/// request to close stops the reading, with the queue unchanged.
pub open spec fn queue_step(q: QueueView, e: StoryEventView) -> (QueueView, QueueActionView) {
    match e {
        StoryEventView::Hide => (q, QueueActionView::Stop),
        StoryEventView::Display(m) => pop_spec(QueueView { pending: m, latest: q.latest }),
        StoryEventView::Next => pop_spec(q),
    }
}

/// The queue and the actions after a sequence of events.
pub open spec fn run(q: QueueView, evs: Seq<StoryEventView>) -> (QueueView, Seq<QueueActionView>)
    decreases evs.len(),
{
    if evs.len() == 0 {
        (q, Seq::empty())
    } else {
        let prev = run(q, evs.drop_last());
        let next = queue_step(prev.0, evs.last());
        (next.0, prev.1.push(next.1))
    }
}

/// The first `n` messages of `m`, shown one after the other.
pub open spec fn shown(m: Seq<MsgView>, n: nat) -> Seq<QueueActionView> {
    Seq::new(n, |i: int| QueueActionView::Show(m[i]))
}

/// The queue once the first `k + 1` messages of `m` were shown.
pub open spec fn waiting(m: Seq<MsgView>, k: nat) -> QueueView {
    QueueView { pending: m.skip(k + 1int), latest: m[k as int].0 }
}

/// `n` requests for the next message.
pub open spec fn nexts(n: nat) -> Seq<StoryEventView> {
    Seq::new(n, |_i: int| StoryEventView::Next)
}

impl StoryQueue {
    /// An empty queue; no message was shown yet.
    pub fn new() -> (q: Self)
        ensures
            q@.pending.len() == 0,
            q@.latest.len() == 0,
    {
        StoryQueue { stack: Vec::new(), latest: String::new() }
    }

    fn pop_next(&mut self) -> (a: QueueAction)
        ensures
            (final(self)@, action_view(a)) == pop_spec(old(self)@),
    {
        let ghost q = self@;
        match self.stack.pop() {
            Some(m) => {
                self.latest = m.0.clone();
                assert(self@.pending =~= q.pending.drop_first());
                QueueAction::Show(m)
            },
            None => QueueAction::NoMore(self.latest.clone()),
        }
    }

    /// Handles an event of the story box.
    pub fn handle(&mut self, event: StoryMessages) -> (a: QueueAction)
        ensures
            (final(self)@, action_view(a)) == queue_step(old(self)@, event_view(event)),
    {
        match event {
            StoryMessages::Hide => QueueAction::Stop,
            StoryMessages::Next => self.pop_next(),
            StoryMessages::Display(msgs) => {
                let ghost orig = msgs@;
                let mut msgs = msgs;
                let mut rev: Vec<(String, Option<Vec<(String, String)>>)> = Vec::new();
                while msgs.len() > 0
                    invariant
                        msgs@ == orig.take(msgs@.len() as int),
                        msgs@.len() <= orig.len(),
                        rev@.len() == orig.len() - msgs@.len(),
                        forall|j: int| 0 <= j < rev@.len() ==> rev@[j] == orig[orig.len() - 1 - j],
                    decreases msgs@.len(),
                {
                    let m = msgs.pop().unwrap();
                    rev.push(m);
                }
                self.stack = rev;
                assert(self@.pending =~= msgs_view(orig));
                self.pop_next()
            },
        }
    }
}

/// Messages shown after a `Display` come in the order given, one for each
/// request for the next message; the request after the last one closes the
/// box and announces the last message.
pub proof fn lemma_messages_in_order(q: QueueView, m: Seq<MsgView>)
    requires
        m.len() > 0,
    ensures
        run(q, seq![StoryEventView::Display(m)] + nexts(m.len())).1 == shown(m, m.len()).push(
            QueueActionView::NoMore(m.last().0),
        ),
        run(q, seq![StoryEventView::Display(m)] + nexts(m.len())).0 == waiting(m, (m.len() - 1) as nat),
{
    let n = (m.len() - 1) as nat;
    lemma_messages_prefix(q, m, n);
    let evs = seq![StoryEventView::Display(m)] + nexts(m.len());
    assert(evs.drop_last() =~= seq![StoryEventView::Display(m)] + nexts(n));
    assert(m.skip(n + 1int) =~= Seq::<MsgView>::empty());
    assert(run(q, evs).1 =~= shown(m, m.len()).push(QueueActionView::NoMore(m.last().0)));
}

/// After a `Display` and `k` requests for the next message, the first
/// `k + 1` messages were shown in order and the rest wait.
proof fn lemma_messages_prefix(q: QueueView, m: Seq<MsgView>, k: nat)
    requires
        k < m.len(),
    ensures
        run(q, seq![StoryEventView::Display(m)] + nexts(k)).0 == waiting(m, k),
        run(q, seq![StoryEventView::Display(m)] + nexts(k)).1 == shown(m, k + 1),
    decreases k,
{
    let evs = seq![StoryEventView::Display(m)] + nexts(k);
    if k == 0 {
        assert(evs =~= seq![StoryEventView::Display(m)]);
        assert(evs.drop_last() =~= Seq::<StoryEventView>::empty());
        assert(evs.last() == StoryEventView::Display(m));
        let prev = run(q, evs.drop_last());
        assert(prev.1 =~= Seq::<QueueActionView>::empty());
        assert(prev.0 == q);
        assert(m.drop_first() =~= m.skip(1));
        assert(run(q, evs).1 =~= shown(m, 1));
    } else {
        lemma_messages_prefix(q, m, (k - 1) as nat);
        assert(evs.drop_last() =~= seq![StoryEventView::Display(m)] + nexts((k - 1) as nat));
        assert(m.skip(k as int).drop_first() =~= m.skip(k + 1int));
        assert(run(q, evs).1 =~= shown(m, k + 1));
    }
}

/// A message with no value to fill in.
pub open spec fn plain(key: Seq<char>) -> MsgView {
    (key, None)
}

/// The messages of the story told at the sensor `name`; a story whose last
/// message holds a calculation fills it in with the numbers of its enigma.
/// `None` for a sensor with no story.
pub open spec fn story_messages_spec(name: Seq<char>, es: Seq<EnigmaView>) -> Option<Seq<MsgView>> {
    if name == "story01"@ {
        Some(seq![plain("story01-01"@), plain("story01-02"@), plain("story01-03"@)])
    } else if name == "story02"@ {
        Some(seq![plain("story02-01"@), plain("story02-02"@)])
    } else if name == "story03"@ {
        Some(seq![plain("story03-01"@), plain("story03-02"@), (story_03(), numbers_for(es, story_03()))])
    } else if name == "story04"@ {
        Some(seq![plain("story04-01"@), plain("story04-02"@), (story_04(), numbers_for(es, story_04()))])
    } else {
        None
    }
}

/// The enigmas hold a calculation for `story`, and nothing else for it.
pub open spec fn numbers_ready(es: Seq<EnigmaView>, story: Seq<char>) -> bool {
    &&& numbers_for(es, story) is Some
    &&& forall|i: int| 0 <= i < es.len() && es[i].story == story ==> es[i].kind is Numbers
}

fn plain_msg(key: &str) -> (r: (String, Option<Vec<(String, String)>>))
    ensures
        msg_view(r) == plain(key@),
{
    (string_of(&chars_of(key)), None)
}

fn clone_pairs(v: &Vec<(String, String)>) -> (r: Vec<(String, String)>)
    ensures
        pairs_view(r@) == pairs_view(v@),
{
    let mut out: Vec<(String, String)> = Vec::new();
    for i in 0..v.len()
        invariant
            pairs_view(out@) == pairs_view(v@).take(i as int),
    {
        let a = v[i].0.clone();
        let b = v[i].1.clone();
        out.push((a, b));
        assert(pairs_view(out@) =~= pairs_view(v@).take(i + 1)) by {
            assert(pairs_view(out@).last() == (a@, b@));
            assert(pairs_view(out@).drop_last() =~= pairs_view(v@).take(i as int));
        }
    }
    assert(pairs_view(v@).take(v@.len() as int) =~= pairs_view(v@));
    out
}

fn numbers_msg(es: &Vec<crate::enigma::Enigma>, story: &str) -> (r: (String, Option<Vec<(String, String)>>))
    requires
        numbers_for(enigmas_view(es@), story@) is Some,
    ensures
        msg_view(r) == (story@, numbers_for(enigmas_view(es@), story@)),
{
    let i = find_last(es, story).unwrap();
    let nums = match &es[i].kind {
        EnigmaKind::Numbers(n) => clone_pairs(n),
        EnigmaKind::Mcq(_) => {
            assert(false);
            Vec::new()
        },
    };
    (string_of(&chars_of(story)), Some(nums))
}

/// The messages to show when the player asks for the story at the sensor
/// `name`, or `None` when no story is told there.
pub fn display_story(name: &str, enigmas: &Enigmas) -> (r: Option<
    Vec<(String, Option<Vec<(String, String)>>)>,
>)
    requires
        name@ == "story03"@ ==> numbers_ready(enigmas_view(enigmas.enigmas@), story_03()),
        name@ == "story04"@ ==> numbers_ready(enigmas_view(enigmas.enigmas@), story_04()),
    ensures
        match story_messages_spec(name@, enigmas_view(enigmas.enigmas@)) {
            Some(m) => r matches Some(v) && msgs_view(v@) == m,
            None => r is None,
        },
{
    let es = &enigmas.enigmas;
    if str_eq(name, "story01") {
        let v = vec![plain_msg("story01-01"), plain_msg("story01-02"), plain_msg("story01-03")];
        assert(msgs_view(v@) =~= seq![plain("story01-01"@), plain("story01-02"@), plain("story01-03"@)]);
        Some(v)
    } else if str_eq(name, "story02") {
        let v = vec![plain_msg("story02-01"), plain_msg("story02-02")];
        assert(msgs_view(v@) =~= seq![plain("story02-01"@), plain("story02-02"@)]);
        Some(v)
    } else if str_eq(name, "story03") {
        let v = vec![plain_msg("story03-01"), plain_msg("story03-02"), numbers_msg(es, "story03-03")];
        assert(msgs_view(v@) =~= seq![
            plain("story03-01"@),
            plain("story03-02"@),
            (story_03(), numbers_for(enigmas_view(es@), story_03())),
        ]);
        Some(v)
    } else if str_eq(name, "story04") {
        let v = vec![plain_msg("story04-01"), plain_msg("story04-02"), numbers_msg(es, "story04-03")];
        assert(msgs_view(v@) =~= seq![
            plain("story04-01"@),
            plain("story04-02"@),
            (story_04(), numbers_for(enigmas_view(es@), story_04())),
        ]);
        Some(v)
    } else {
        None
    }
}

} // verus!
