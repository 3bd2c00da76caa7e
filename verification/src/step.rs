//! Operations that are decided here and performed by the caller.
//!
//! An engine never calls the window system. It answers with a [`Step`]: either
//! a call for the caller to perform, together with the session to resume with
//! the outcome, or the result of the operation.

use crate::raster::{Raster, RgbImage};
use vstd::prelude::*;

verus! {

/// What an engine says after each decision.
pub enum Step<S, C, T> {
    /// Perform the call, then resume the session with what came back.
    Call(S, C),
    /// The operation is over.
    Done(T),
}

/// A capture step as the contracts see it: the image by its pixels.
pub open spec fn seen<S, C, E>(step: Step<S, C, Result<RgbImage, E>>) -> Step<
    S,
    C,
    Result<Raster, E>,
> {
    match step {
        Step::Call(session, call) => Step::Call(session, call),
        Step::Done(Ok(image)) => Step::Done(Ok(image@)),
        Step::Done(Err(error)) => Step::Done(Err(error)),
    }
}

/// A capture of every display, under way: the images of the displays done,
/// and the session of the display being captured.
pub struct Batch<S> {
    pub images: Vec<RgbImage>,
    pub session: S,
}

/// Images as the contracts see them.
pub open spec fn rasters(images: Seq<RgbImage>) -> Seq<Raster> {
    images.map_values(|image: RgbImage| image@)
}

/// A step of capturing every display as the contracts see it.
pub open spec fn seen_all<S, C, E>(step: Step<Batch<S>, C, Result<Vec<RgbImage>, E>>) -> Step<
    (Seq<Raster>, S),
    C,
    Result<Seq<Raster>, E>,
> {
    match step {
        Step::Call(batch, call) => Step::Call((rasters(batch.images@), batch.session), call),
        Step::Done(Ok(images)) => Step::Done(Ok(rasters(images@))),
        Step::Done(Err(error)) => Step::Done(Err(error)),
    }
}

/// Where an operation ends when every call is answered by `surface`, a window
/// system that answers the same call the same way each time. `None` when it
/// is still asking after `calls` answers.
pub open spec fn run<S, C, R, T>(
    resume: spec_fn(S, R) -> Step<S, C, T>,
    surface: spec_fn(C) -> R,
    step: Step<S, C, T>,
    calls: nat,
) -> Option<T>
    decreases calls,
{
    match step {
        Step::Done(result) => Some(result),
        Step::Call(session, call) => if calls == 0 {
            None
        } else {
            run(resume, surface, resume(session, surface(call)), (calls - 1) as nat)
        },
    }
}

/// The calls that an operation makes, in order, while every call is answered
/// by `surface`, up to `calls` of them.
pub open spec fn calls_of<S, C, R, T>(
    resume: spec_fn(S, R) -> Step<S, C, T>,
    surface: spec_fn(C) -> R,
    step: Step<S, C, T>,
    calls: nat,
) -> Seq<C>
    decreases calls,
{
    match step {
        Step::Done(_) => Seq::empty(),
        Step::Call(session, call) => if calls == 0 {
            Seq::empty()
        } else {
            seq![call] + calls_of(
                resume,
                surface,
                resume(session, surface(call)),
                (calls - 1) as nat,
            )
        },
    }
}

/// One step of capturing `total` displays in turn. `collected` holds the
/// images of the displays before the current one, and `step` is where the
/// capture of the current one stands; `start` begins the capture of a display.
pub open spec fn batch_step<S, C, A, E>(
    total: nat,
    start: spec_fn(int) -> Step<S, C, Result<A, E>>,
    collected: Seq<A>,
    step: Step<S, C, Result<A, E>>,
) -> Step<(Seq<A>, S), C, Result<Seq<A>, E>>
    decreases total - collected.len(),
{
    match step {
        Step::Call(session, call) => Step::Call((collected, session), call),
        Step::Done(Err(error)) => Step::Done(Err(error)),
        Step::Done(Ok(item)) => if collected.len() + 1 >= total {
            Step::Done(Ok(collected.push(item)))
        } else {
            batch_step(total, start, collected.push(item), start((collected.len() + 1) as int))
        },
    }
}

/// The first step of capturing `total` displays in turn.
pub open spec fn batch_start<S, C, A, E>(
    total: nat,
    start: spec_fn(int) -> Step<S, C, Result<A, E>>,
) -> Step<(Seq<A>, S), C, Result<Seq<A>, E>> {
    if total == 0 {
        Step::Done(Ok(Seq::empty()))
    } else {
        batch_step(total, start, Seq::empty(), start(0))
    }
}

/// How capturing `total` displays in turn resumes: the answer goes to the
/// capture of the current display.
pub open spec fn batch_resume<S, C, R, A, E>(
    total: nat,
    start: spec_fn(int) -> Step<S, C, Result<A, E>>,
    resume: spec_fn(S, R) -> Step<S, C, Result<A, E>>,
) -> spec_fn((Seq<A>, S), R) -> Step<(Seq<A>, S), C, Result<Seq<A>, E>> {
    |state: (Seq<A>, S), reply: R| batch_step(total, start, state.0, resume(state.1, reply))
}

/// How capturing `total` displays in turn ends once the first of them are
/// `collected`, when each display alone ends as `alone` says: with every
/// image in order, or with the first failure.
pub open spec fn gather<A, E>(
    total: nat,
    alone: spec_fn(int) -> Result<A, E>,
    collected: Seq<A>,
) -> Result<Seq<A>, E>
    decreases total - collected.len(),
{
    if collected.len() >= total {
        Ok(collected)
    } else {
        match alone(collected.len() as int) {
            Ok(item) => gather(total, alone, collected.push(item)),
            Err(error) => Err(error),
        }
    }
}

/// How each display ends when captured alone on `surface`.
pub open spec fn alone<S, C, R, A, E>(
    start: spec_fn(int) -> Step<S, C, Result<A, E>>,
    resume: spec_fn(S, R) -> Step<S, C, Result<A, E>>,
    surface: spec_fn(C) -> R,
    calls: nat,
) -> spec_fn(int) -> Result<A, E> {
    |index: int| run(resume, surface, start(index), calls).unwrap()
}

/// An operation that ends within `calls` answers ends the same way when more
/// are allowed.
pub proof fn lemma_run_longer<S, C, R, T>(
    resume: spec_fn(S, R) -> Step<S, C, T>,
    surface: spec_fn(C) -> R,
    step: Step<S, C, T>,
    calls: nat,
    more: nat,
)
    requires
        run(resume, surface, step, calls) is Some,
        calls <= more,
    ensures
        run(resume, surface, step, more) == run(resume, surface, step, calls),
    decreases calls,
{
    match step {
        Step::Done(_) => {},
        Step::Call(session, call) => {
            lemma_run_longer(
                resume,
                surface,
                resume(session, surface(call)),
                (calls - 1) as nat,
                (more - 1) as nat,
            );
        },
    }
}

proof fn lemma_batch_run<S, C, R, A, E>(
    total: nat,
    start: spec_fn(int) -> Step<S, C, Result<A, E>>,
    resume: spec_fn(S, R) -> Step<S, C, Result<A, E>>,
    surface: spec_fn(C) -> R,
    calls: nat,
    collected: Seq<A>,
    step: Step<S, C, Result<A, E>>,
    fuel: nat,
)
    requires
        collected.len() < total,
        run(resume, surface, step, fuel) is Some,
        forall|index: int|
            collected.len() < index < total ==> (#[trigger] run(
                resume,
                surface,
                start(index),
                calls,
            )) is Some,
    ensures
        run(
            batch_resume(total, start, resume),
            surface,
            batch_step(total, start, collected, step),
            (fuel + (total - collected.len() - 1) * calls) as nat,
        ) == Some(
            match run(resume, surface, step, fuel).unwrap() {
                Ok(item) => gather(
                    total,
                    alone(start, resume, surface, calls),
                    collected.push(item),
                ),
                Err(error) => Err(error),
            },
        ),
    decreases total - collected.len(), fuel,
{
    let all = batch_resume(total, start, resume);
    let rest = (total - collected.len() - 1) as nat;
    assert(rest * calls >= 0) by (nonlinear_arith);
    match step {
        Step::Call(session, call) => {
            let next = resume(session, surface(call));
            lemma_batch_run(
                total,
                start,
                resume,
                surface,
                calls,
                collected,
                next,
                (fuel - 1) as nat,
            );
            assert(all((collected, session), surface(call)) == batch_step(
                total,
                start,
                collected,
                next,
            ));
        },
        Step::Done(Err(error)) => {},
        Step::Done(Ok(item)) => {
            let longer = collected.push(item);
            if longer.len() < total {
                let index = longer.len() as int;
                lemma_batch_run(total, start, resume, surface, calls, longer, start(index), calls);
                assert((rest - 1) * calls + calls == rest * calls) by (nonlinear_arith);
                lemma_run_longer(
                    all,
                    surface,
                    batch_step(total, start, longer, start(index)),
                    (calls + (rest - 1) * calls) as nat,
                    (fuel + rest * calls) as nat,
                );
            }
        },
    }
}

proof fn lemma_gather<A, E>(total: nat, each: spec_fn(int) -> Result<A, E>, collected: Seq<A>)
    requires
        collected.len() <= total,
    ensures
        match gather(total, each, collected) {
            Ok(items) => {
                &&& items.len() == total
                &&& forall|index: int| 0 <= index < collected.len() ==> items[index] == collected[index]
                &&& forall|index: int|
                    collected.len() <= index < total ==> #[trigger] each(index) == Ok::<A, E>(
                        items[index],
                    )
            },
            Err(error) => exists|failed: int|
                {
                    &&& collected.len() <= failed < total
                    &&& #[trigger] each(failed) == Err::<A, E>(error)
                    &&& forall|index: int|
                        collected.len() <= index < failed ==> (#[trigger] each(index)) is Ok
                },
        },
    decreases total - collected.len(),
{
    if collected.len() < total {
        let index = collected.len() as int;
        match each(index) {
            Ok(item) => {
                lemma_gather(total, each, collected.push(item));
                match gather(total, each, collected) {
                    Ok(items) => {
                        assert(items[index] == collected.push(item)[index]);
                    },
                    Err(error) => {
                        let failed = choose|failed: int|
                            {
                                &&& collected.len() + 1 <= failed < total
                                &&& #[trigger] each(failed) == Err::<A, E>(error)
                                &&& forall|index: int|
                                    collected.len() + 1 <= index < failed ==> (#[trigger] each(
                                        index,
                                    )) is Ok
                            };
                        assert(each(failed) == Err::<A, E>(error));
                    },
                }
            },
            Err(error) => {
                assert(each(index) == Err::<A, E>(error));
            },
        }
    }
}

/// Capturing every display in turn gives what capturing each alone gives.
///
/// On a surface that answers the same call the same way each time, and on
/// which the capture of every display alone ends within `calls` answers, the
/// batch ends too. Where it succeeds it holds one image per display, and the
/// image at each index is the one that capturing that display alone returns.
/// Where it fails, it fails as the first display that fails alone does, and
/// every display before that one succeeds alone.
pub proof fn lemma_capture_all_matches_capture<S, C, R, A, E>(
    total: nat,
    start: spec_fn(int) -> Step<S, C, Result<A, E>>,
    resume: spec_fn(S, R) -> Step<S, C, Result<A, E>>,
    surface: spec_fn(C) -> R,
    calls: nat,
)
    requires
        forall|index: int|
            0 <= index < total ==> (#[trigger] run(resume, surface, start(index), calls)) is Some,
    ensures
        match run(
            batch_resume(total, start, resume),
            surface,
            batch_start(total, start),
            total * calls,
        ) {
            Some(Ok(images)) => {
                &&& images.len() == total
                &&& forall|index: int|
                    0 <= index < total ==> #[trigger] run(resume, surface, start(index), calls)
                        == Some(Ok::<A, E>(images[index]))
            },
            Some(Err(error)) => exists|failed: int|
                {
                    &&& 0 <= failed < total
                    &&& #[trigger] run(resume, surface, start(failed), calls) == Some(
                        Err::<A, E>(error),
                    )
                    &&& forall|index: int|
                        0 <= index < failed ==> (#[trigger] run(
                            resume,
                            surface,
                            start(index),
                            calls,
                        )) matches Some(Ok(_))
                },
            None => false,
        },
{
    let each = alone(start, resume, surface, calls);
    lemma_gather(total, each, Seq::empty());
    if total > 0 {
        lemma_batch_run(total, start, resume, surface, calls, Seq::empty(), start(0), calls);
        assert(calls + (total - 1) * calls == total * calls) by (nonlinear_arith);
        assert(gather(total, each, Seq::<A>::empty()) == match each(0) {
            Ok(item) => gather(total, each, Seq::<A>::empty().push(item)),
            Err(error) => Err(error),
        });
        match gather(total, each, Seq::<A>::empty()) {
            Ok(images) => {
                assert forall|index: int| 0 <= index < total implies #[trigger] run(
                    resume,
                    surface,
                    start(index),
                    calls,
                ) == Some(Ok::<A, E>(images[index])) by {
                    assert(each(index) == Ok::<A, E>(images[index]));
                }
            },
            Err(error) => {
                let failed = choose|failed: int|
                    {
                        &&& 0 <= failed < total
                        &&& #[trigger] each(failed) == Err::<A, E>(error)
                        &&& forall|index: int| 0 <= index < failed ==> (#[trigger] each(index)) is Ok
                    };
                assert(run(resume, surface, start(failed), calls) == Some(Err::<A, E>(error)));
                assert forall|index: int| 0 <= index < failed implies (#[trigger] run(
                    resume,
                    surface,
                    start(index),
                    calls,
                )) matches Some(Ok(_)) by {
                    assert(each(index) is Ok);
                }
            },
        }
    } else {
        assert(total * calls == 0) by (nonlinear_arith)
            requires
                total == 0,
        ;
    }
}

} // verus!
