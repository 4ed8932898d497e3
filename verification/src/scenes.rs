//! The engine's handling of what scenes ask of it: a stack of scenes, and
//! the signals that change it, send drawing work, end the game or stop it
//! with an error. The decisions are made here one step at a time; the
//! caller carries out each step (it owns the scenes, the context and the
//! renderer's channel).

use crate::error::Error;
use crate::render::character::string_chars;
use crate::render::renderer::RenderSignal;
use vstd::prelude::*;

verus! {

/// What a scene asks of the engine.
pub enum Signal<S> {
    /// Nothing.
    Nothing,
    /// End the game.
    Quit,
    /// Change the stack of scenes.
    Scenes(SceneSignal<S>),
    /// Drawing work for the renderer.
    Render(RenderSignal),
    /// Stop the engine with an error.
    Error(Error),
    /// A line for the log.
    Log(String),
    /// Signals handled first to last, except that after the first the rest
    /// go from the last back (each taken from the front, the last put in
    /// its place).
    Batch(Vec<Signal<S>>),
    /// Signals handled in order.
    Sequence(Vec<Signal<S>>),
}

/// A change of the stack of scenes.
pub enum SceneSignal<S> {
    /// Leave the top scene and go back to the one below.
    Pop,
    /// Start `scene` with `signal` and put it on top.
    New { scene: S, signal: Option<Box<Signal<S>>> },
}

/// What is left to do: handle a signal, or put a started scene on top.
pub enum Work<S> {
    Handle(Signal<S>),
    Push(S),
}

/// One step for the caller to carry out.
pub enum Step<S> {
    /// Nothing to carry out.
    Continue,
    /// End the game: cancel the engine's context.
    Cancel,
    /// Send the work to the renderer (a failed send is only logged).
    Send(RenderSignal),
    /// Suspend the top scene when `suspend_top`, start `scene` with
    /// `signal`, and hand the scene and what it answered to `started`.
    Start { scene: S, signal: Option<Signal<S>>, suspend_top: bool },
    /// Put the scene on top of the stack.
    PushScene(S),
    /// Drop the top scene and resume the one below.
    PopScene,
    /// A pop that would leave no scene to resume; nothing is done.
    Refused,
    /// Stop with the error; nothing that was left is done.
    Fail(Error),
}

/// The order in which a batch's signals are handled: the first, then the
/// others from the last back.
pub open spec fn batch_order<S>(v: Seq<Signal<S>>) -> Seq<Signal<S>> {
    if v.len() == 0 {
        v
    } else {
        seq![v[0]] + v.skip(1).reverse()
    }
}

/// Work items for signals, to be taken from the end: the first signal
/// last.
pub open spec fn stacked<S>(order: Seq<Signal<S>>) -> Seq<Work<S>> {
    order.reverse().map_values(|s: Signal<S>| Work::Handle(s))
}

/// The signal inside an optional box.
pub open spec fn unboxed<S>(s: Option<Box<Signal<S>>>) -> Option<Signal<S>> {
    match s {
        Some(b) => Some(*b),
        None => None,
    }
}

/// The agenda and scene count after taking `w` from the end of the
/// agenda `rest + [w]` with `depth` scenes on the stack, and the step it
/// gives.
pub open spec fn after_work<S>(rest: Seq<Work<S>>, depth: nat, w: Work<S>) -> (Seq<Work<S>>, nat, Step<S>) {
    match w {
        Work::Push(s) => (rest, depth + 1, Step::PushScene(s)),
        Work::Handle(sig) => match sig {
            Signal::Nothing => (rest, depth, Step::Continue),
            Signal::Log(_) => (rest, depth, Step::Continue),
            Signal::Quit => (rest, depth, Step::Cancel),
            Signal::Render(m) => (rest, depth, Step::Send(m)),
            Signal::Error(e) => (Seq::empty(), depth, Step::Fail(e)),
            Signal::Batch(v) => (rest + stacked(batch_order(v@)), depth, Step::Continue),
            Signal::Sequence(v) => (rest + stacked(v@), depth, Step::Continue),
            Signal::Scenes(SceneSignal::Pop) => if depth >= 2 {
                (rest, (depth - 1) as nat, Step::PopScene)
            } else {
                (rest, depth, Step::Refused)
            },
            Signal::Scenes(SceneSignal::New { scene, signal }) => (
                rest,
                depth,
                Step::Start { scene, signal: unboxed(signal), suspend_top: depth > 0 },
            ),
        },
    }
}

/// What a scene script's answer asks for: `Quit` ends the game; any other
/// answer asks for nothing.
pub fn script_answer<S>(answer: &str) -> (r: Signal<S>)
    ensures
        answer@ == "Quit"@ ==> r is Quit,
        answer@ != "Quit"@ ==> r is Nothing,
{
    let c = string_chars(&String::from_str(answer));
    proof {
        reveal_strlit("Quit");
    }
    if c.len() == 4 && c[0] == 'Q' && c[1] == 'u' && c[2] == 'i' && c[3] == 't' {
        assert(answer@ =~= "Quit"@);
        Signal::Quit
    } else {
        assert(answer@ != "Quit"@);
        Signal::Nothing
    }
}

/// The signals still to handle and the number of scenes on the stack.
pub struct Dispatcher<S> {
    agenda: Vec<Work<S>>,
    depth: usize,
}

impl<S> Dispatcher<S> {
    /// The work left, the next item last.
    pub closed spec fn agenda(&self) -> Seq<Work<S>> {
        self.agenda@
    }

    /// The number of scenes on the stack.
    pub closed spec fn depth(&self) -> nat {
        self.depth as nat
    }

    /// Nothing to do, with `depth` scenes on the stack.
    pub fn new(depth: usize) -> (r: Self)
        ensures
            r.agenda() == Seq::<Work<S>>::empty(),
            r.depth() == depth,
    {
        Dispatcher { agenda: Vec::new(), depth }
    }

    /// The number of scenes on the stack.
    pub fn scene_count(&self) -> (r: usize)
        ensures
            r == self.depth(),
    {
        self.depth
    }

    /// Whether nothing is left to do.
    pub fn is_idle(&self) -> (r: bool)
        ensures
            r == (self.agenda().len() == 0),
    {
        self.agenda.len() == 0
    }

    /// Takes on a signal, to be handled before what is left.
    pub fn handle(&mut self, sig: Signal<S>)
        ensures
            final(self).agenda() == old(self).agenda().push(Work::Handle(sig)),
            final(self).depth() == old(self).depth(),
    {
        self.agenda.push(Work::Handle(sig));
    }

    /// A started scene and what it answered: the answer is handled first,
    /// then the scene goes on top.
    pub fn started(&mut self, scene: S, answer: Signal<S>)
        ensures
            final(self).agenda() == old(self).agenda().push(Work::Push(scene)).push(Work::Handle(answer)),
            final(self).depth() == old(self).depth(),
    {
        self.agenda.push(Work::Push(scene));
        self.agenda.push(Work::Handle(answer));
    }

    /// Puts work items for `order` on the agenda, the first last.
    fn push_in_order(&mut self, order: Vec<Signal<S>>)
        ensures
            final(self).agenda() == old(self).agenda() + stacked(order@),
            final(self).depth() == old(self).depth(),
    {
        let mut rest = order;
        let ghost o = order@;
        while rest.len() > 0
            invariant
                o.len() >= rest@.len(),
                rest@ == o.take(rest@.len() as int),
                self.agenda@ == old(self).agenda() + stacked(o.skip(rest@.len() as int)),
                self.depth == old(self).depth,
            decreases rest@.len(),
        {
            let ghost k = rest@.len() as int;
            let s = rest.pop().unwrap();
            self.agenda.push(Work::Handle(s));
            proof {
                assert(rest@ =~= o.take(k - 1));
                assert(stacked(o.skip(k - 1)) =~= stacked(o.skip(k)).push(Work::Handle(s)));
            }
        }
        proof {
            assert(o.skip(0) =~= o);
        }
    }

    /// The signals of a batch in the order they are handled.
    fn batch_in_order(v: Vec<Signal<S>>) -> (r: Vec<Signal<S>>)
        ensures
            r@ == batch_order(v@),
    {
        let ghost v0 = v@;
        let mut v = v;
        let mut out: Vec<Signal<S>> = Vec::new();
        if v.len() == 0 {
            return out;
        }
        let first = v.remove(0);
        out.push(first);
        while v.len() > 0
            invariant
                v0.len() >= 1,
                v@.len() <= v0.len() - 1,
                v@ == v0.skip(1).take(v@.len() as int),
                out@ == seq![v0[0]] + v0.skip(1).skip(v@.len() as int).reverse(),
            decreases v@.len(),
        {
            let ghost k = v@.len() as int;
            let s = v.pop().unwrap();
            out.push(s);
            proof {
                let t = v0.skip(1);
                assert(v@ =~= t.take(k - 1));
                assert(t.skip(k - 1).reverse() =~= t.skip(k).reverse().push(t[k - 1]));
            }
        }
        proof {
            assert(v0.skip(1).skip(0) =~= v0.skip(1));
        }
        out
    }

    /// The next step, taking the last work item: `None` when nothing is
    /// left (see `after_work`).
    pub fn next(&mut self) -> (r: Option<Step<S>>)
        requires
            old(self).depth() < usize::MAX,
        ensures
            old(self).agenda().len() == 0 ==> r is None && final(self).agenda() == old(self).agenda()
                && final(self).depth() == old(self).depth(),
            old(self).agenda().len() > 0 ==> {
                let a = old(self).agenda();
                let (agenda, depth, step) = after_work(a.drop_last(), old(self).depth(), a.last());
                r == Some(step) && final(self).agenda() == agenda && final(self).depth() == depth
            },
    {
        let w = match self.agenda.pop() {
            Some(w) => w,
            None => return None,
        };
        let step = match w {
            Work::Push(s) => {
                self.depth = self.depth + 1;
                Step::PushScene(s)
            },
            Work::Handle(sig) => match sig {
                Signal::Nothing => Step::Continue,
                Signal::Log(_) => Step::Continue,
                Signal::Quit => Step::Cancel,
                Signal::Render(m) => Step::Send(m),
                Signal::Error(e) => {
                    self.agenda = Vec::new();
                    Step::Fail(e)
                },
                Signal::Batch(v) => {
                    let order = Self::batch_in_order(v);
                    self.push_in_order(order);
                    Step::Continue
                },
                Signal::Sequence(v) => {
                    self.push_in_order(v);
                    Step::Continue
                },
                Signal::Scenes(SceneSignal::Pop) => {
                    if self.depth >= 2 {
                        self.depth = self.depth - 1;
                        Step::PopScene
                    } else {
                        Step::Refused
                    }
                },
                Signal::Scenes(SceneSignal::New { scene, signal }) => {
                    let sig = match signal {
                        Some(b) => Some(*b),
                        None => None,
                    };
                    Step::Start { scene, signal: sig, suspend_top: self.depth > 0 }
                },
            },
        };
        Some(step)
    }
}

/// The signals of a sequence, put on top of any agenda, are taken first
/// to last: the `i`-th signal lies `i` items below the top.
pub proof fn law_sequence_in_order<S>(rest: Seq<Work<S>>, v: Seq<Signal<S>>, i: int)
    requires
        0 <= i < v.len(),
    ensures
        (rest + stacked(v)).len() == rest.len() + v.len(),
        (rest + stacked(v))[rest.len() + v.len() - 1 - i] == Work::Handle(v[i]),
{
    assert((rest + stacked(v))[rest.len() + v.len() - 1 - i] == stacked(v)[v.len() - 1 - i]);
}

/// A batch handles each of its signals exactly once: its order holds the
/// same signals, as many times each.
pub proof fn law_batch_each_once<S>(v: Seq<Signal<S>>)
    ensures
        batch_order(v).len() == v.len(),
        batch_order(v).to_multiset() == v.to_multiset(),
{
    if v.len() > 0 {
        let t = v.skip(1);
        t.lemma_reverse_to_multiset();
        vstd::seq_lib::lemma_multiset_commutative(seq![v[0]], t.reverse());
        vstd::seq_lib::lemma_multiset_commutative(seq![v[0]], t);
        assert(v =~= seq![v[0]] + t);
    }
}

/// The agenda and answers left after `step`, when the caller hands the
/// first of `answers` to `started` for a scene it started (none is handed
/// back when no answer is left).
pub open spec fn answered<S>(agenda: Seq<Work<S>>, step: Step<S>, answers: Seq<Signal<S>>) -> (Seq<Work<S>>, Seq<Signal<S>>) {
    match step {
        Step::Start { scene, .. } => if answers.len() > 0 {
            (agenda.push(Work::Push(scene)).push(Work::Handle(answers[0])), answers.drop_first())
        } else {
            (agenda, answers)
        },
        _ => (agenda, answers),
    }
}

/// The agenda, scene count, answers left and steps after taking up to `n`
/// work items from the end of `agenda` with `depth` scenes on the stack,
/// the started scenes answering `answers` in turn.
pub open spec fn run_steps<S>(agenda: Seq<Work<S>>, depth: nat, answers: Seq<Signal<S>>, n: nat) -> (
    Seq<Work<S>>,
    nat,
    Seq<Signal<S>>,
    Seq<Step<S>>,
)
    decreases n,
{
    if n == 0 || agenda.len() == 0 {
        (agenda, depth, answers, Seq::empty())
    } else {
        let (a, d, st) = after_work(agenda.drop_last(), depth, agenda.last());
        let (a1, ans1) = answered(a, st, answers);
        let (a2, d2, ans2, steps) = run_steps(a1, d, ans1, (n - 1) as nat);
        (a2, d2, ans2, seq![st] + steps)
    }
}

/// No step of `steps` stops with an error.
pub open spec fn no_failure<S>(steps: Seq<Step<S>>) -> bool {
    forall|i: int| 0 <= i < steps.len() ==> !(#[trigger] steps[i] is Fail)
}

/// Work under the top of the agenda is not touched while what lies above
/// it is worked off: `n` steps on `top` that run out neither of work nor
/// into an error give the same steps on `below + top`, and leave `below`
/// where it was.
pub proof fn law_work_below_waits<S>(below: Seq<Work<S>>, top: Seq<Work<S>>, depth: nat, answers: Seq<Signal<S>>, n: nat)
    requires
        run_steps(top, depth, answers, n).3.len() == n,
        no_failure(run_steps(top, depth, answers, n).3),
    ensures
        ({
            let (a, d, ans, st) = run_steps(top, depth, answers, n);
            run_steps(below + top, depth, answers, n) == (below + a, d, ans, st)
        }),
    decreases n,
{
    if n > 0 {
        let (a, d, st) = after_work(top.drop_last(), depth, top.last());
        let (a1, ans1) = answered(a, st, answers);
        let r = run_steps(a1, d, ans1, (n - 1) as nat);
        assert(run_steps(top, depth, answers, n).3 == seq![st] + r.3);
        assert(!(run_steps(top, depth, answers, n).3[0] is Fail));
        assert forall|i: int| 0 <= i < r.3.len() implies !(#[trigger] r.3[i] is Fail) by {
            assert(r.3[i] == run_steps(top, depth, answers, n).3[i + 1]);
        }
        law_work_below_waits(below, a1, d, ans1, (n - 1) as nat);
        let all = below + top;
        assert(all.last() == top.last());
        assert(all.drop_last() =~= below + top.drop_last());
        lemma_after_work_keeps_below(below, top.drop_last(), depth, top.last());
        let (b, bd, bst) = after_work(all.drop_last(), depth, all.last());
        assert(b == below + a);
        let (b1, bans1) = answered(b, bst, answers);
        assert(b1 =~= below + a1);
    }
}

/// What a step does to the agenda leaves the work under it in place,
/// unless the step stops with an error.
proof fn lemma_after_work_keeps_below<S>(below: Seq<Work<S>>, rest: Seq<Work<S>>, depth: nat, w: Work<S>)
    requires
        !(after_work(rest, depth, w).2 is Fail),
    ensures
        after_work(below + rest, depth, w).0 == below + after_work(rest, depth, w).0,
        after_work(below + rest, depth, w).1 == after_work(rest, depth, w).1,
        after_work(below + rest, depth, w).2 == after_work(rest, depth, w).2,
{
    match w {
        Work::Handle(Signal::Batch(v)) => {
            assert((below + rest) + stacked(batch_order(v@)) =~= below + (rest + stacked(batch_order(v@))));
        },
        Work::Handle(Signal::Sequence(v)) => {
            assert((below + rest) + stacked(v@) =~= below + (rest + stacked(v@)));
        },
        _ => {},
    }
}

/// Taking `n + m` steps is taking `n` steps, then `m` more from where
/// they left off.
pub proof fn law_steps_compose<S>(agenda: Seq<Work<S>>, depth: nat, answers: Seq<Signal<S>>, n: nat, m: nat)
    ensures
        ({
            let (a, d, ans, st) = run_steps(agenda, depth, answers, n);
            let (a2, d2, ans2, st2) = run_steps(a, d, ans, m);
            run_steps(agenda, depth, answers, n + m) == (a2, d2, ans2, st + st2)
        }),
    decreases n,
{
    if n == 0 || agenda.len() == 0 {
        let r = run_steps(agenda, depth, answers, m);
        assert(Seq::<Step<S>>::empty() + r.3 =~= r.3);
        if agenda.len() == 0 && m > 0 {
            assert(run_steps(agenda, depth, answers, n + m).3 =~= Seq::<Step<S>>::empty());
        }
    } else {
        let (a, d, st) = after_work(agenda.drop_last(), depth, agenda.last());
        let (a1, ans1) = answered(a, st, answers);
        law_steps_compose(a1, d, ans1, (n - 1) as nat, m);
        let r1 = run_steps(a1, d, ans1, (n - 1) as nat);
        let r2 = run_steps(r1.0, r1.1, r1.2, m);
        assert((n + m - 1) as nat == (n - 1) as nat + m);
        assert(seq![st] + (r1.3 + r2.3) =~= (seq![st] + r1.3) + r2.3);
    }
}

/// A sequence handles its signals one after the other: its first signal,
/// with all the work it gives rise to (answers of scenes it starts
/// included), is done before the next is touched. When the first signal
/// alone is done in `n` steps, without an error, the sequence goes on
/// from there as the sequence of the others, with the scene count and
/// answers that the first left.
pub proof fn law_sequence_handles_each_in_turn<S>(
    rest: Seq<Work<S>>,
    depth: nat,
    answers: Seq<Signal<S>>,
    v: Seq<Signal<S>>,
    n: nat,
    m: nat,
)
    requires
        v.len() > 0,
        run_steps(seq![Work::Handle(v[0])], depth, answers, n).0.len() == 0,
        run_steps(seq![Work::Handle(v[0])], depth, answers, n).3.len() == n,
        no_failure(run_steps(seq![Work::Handle(v[0])], depth, answers, n).3),
    ensures
        ({
            let (a0, d0, ans0, st0) = run_steps(seq![Work::Handle(v[0])], depth, answers, n);
            let (a, d, ans, st) = run_steps(rest + stacked(v.skip(1)), d0, ans0, m);
            run_steps(rest + stacked(v), depth, answers, n + m) == (a, d, ans, st0 + st)
        }),
{
    let below = rest + stacked(v.skip(1));
    let top = seq![Work::Handle(v[0])];
    assert(rest + stacked(v) =~= below + top);
    law_work_below_waits(below, top, depth, answers, n);
    law_steps_compose(below + top, depth, answers, n, m);
    let r0 = run_steps(top, depth, answers, n);
    assert(below + r0.0 =~= below);
}

/// The step a render signal gives.
pub open spec fn send_step<S>(s: Signal<S>) -> Step<S> {
    match s {
        Signal::Render(m) => Step::Send(m),
        _ => Step::Continue,
    }
}

/// The render signals of a sequence, put on top of any agenda, are sent
/// first to last over the following steps, after which the agenda is as
/// it was.
pub proof fn law_sequence_sent_in_order<S>(rest: Seq<Work<S>>, depth: nat, answers: Seq<Signal<S>>, v: Seq<Signal<S>>)
    requires
        forall|i: int| 0 <= i < v.len() ==> (#[trigger] v[i]) is Render,
    ensures
        run_steps(rest + stacked(v), depth, answers, v.len()) == (
            rest,
            depth,
            answers,
            v.map_values(|s: Signal<S>| send_step(s)),
        ),
    decreases v.len(),
{
    if v.len() == 0 {
        assert(rest + stacked(v) =~= rest);
        assert(v.map_values(|s: Signal<S>| send_step(s)) =~= Seq::<Step<S>>::empty());
    } else {
        let a = rest + stacked(v);
        let t = v.skip(1);
        assert(a.last() == Work::<S>::Handle(v[0]));
        assert(a.drop_last() =~= rest + stacked(t));
        assert forall|i: int| 0 <= i < t.len() implies (#[trigger] t[i]) is Render by {
            assert(t[i] == v[i + 1]);
        }
        law_sequence_sent_in_order(rest, depth, answers, t);
        assert(v.map_values(|s: Signal<S>| send_step(s)) =~= seq![send_step(v[0])] + t.map_values(
            |s: Signal<S>| send_step(s),
        ));
    }
}

/// What each kind of work does, taken off the top of the agenda with
/// `depth` scenes on the stack: putting a scene on top counts one more
/// scene; nothing and a log line just go on; `Quit` cancels; render work
/// is sent; an error stops everything, leaving no work; a pop drops the
/// top scene when at least two are on the stack and is refused otherwise;
/// a new scene is started with its signal, suspending the top scene when
/// there is one. None of these changes the work below.
pub proof fn law_each_step<S>(rest: Seq<Work<S>>, depth: nat, w: Work<S>)
    ensures
        w matches Work::Push(s) ==> after_work(rest, depth, w) == (rest, depth + 1, Step::<S>::PushScene(s)),
        w matches Work::Handle(Signal::Nothing) ==> after_work(rest, depth, w) == (rest, depth, Step::<S>::Continue),
        w matches Work::Handle(Signal::Log(_)) ==> after_work(rest, depth, w) == (rest, depth, Step::<S>::Continue),
        w matches Work::Handle(Signal::Quit) ==> after_work(rest, depth, w) == (rest, depth, Step::<S>::Cancel),
        w matches Work::Handle(Signal::Render(m)) ==> after_work(rest, depth, w) == (rest, depth, Step::<S>::Send(m)),
        w matches Work::Handle(Signal::Error(e)) ==> after_work(rest, depth, w) == (Seq::<Work<S>>::empty(), depth, Step::<S>::Fail(e)),
        w matches Work::Handle(Signal::Scenes(SceneSignal::Pop)) ==> after_work(rest, depth, w) == if depth >= 2 {
            (rest, (depth - 1) as nat, Step::<S>::PopScene)
        } else {
            (rest, depth, Step::<S>::Refused)
        },
        w matches Work::Handle(Signal::Scenes(SceneSignal::New { scene, signal })) ==> after_work(rest, depth, w) == (
            rest,
            depth,
            Step::Start {
                scene,
                signal: match signal {
                    Some(b) => Some(*b),
                    None => None,
                },
                suspend_top: depth > 0,
            },
        ),
{
}

/// A batch handles its first signal first, then the others from the last
/// back: the `i`-th handled (after the first) is the `len - i`-th given.
pub proof fn law_batch_first_then_from_back<S>(v: Seq<Signal<S>>)
    requires
        v.len() > 0,
    ensures
        batch_order(v)[0] == v[0],
        forall|i: int| 1 <= i < v.len() ==> #[trigger] batch_order(v)[i] == v[v.len() - i],
{
    assert forall|i: int| 1 <= i < v.len() implies #[trigger] batch_order(v)[i] == v[v.len() - i] by {
        assert(batch_order(v)[i] == v.skip(1).reverse()[i - 1]);
    }
}

} // verus!
