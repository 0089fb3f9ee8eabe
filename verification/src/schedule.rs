use vstd::prelude::*;

use vstd::arithmetic::div_mod::lemma_fundamental_div_mod_converse;

verus! {

/// One action of rendering a frame.
#[derive(Debug, Clone, Copy, PartialEq, Eq, Structural)]
pub enum RenderAction {
    /// Clear the output image.
    ClearImage,
    /// Let command factory `factory` record its work for render step `step`.
    RunFactory { step: u32, factory: usize },
    /// Fetch fresh per-frame buffers once step `step` is recorded.
    RefreshBuffers { step: u32 },
    /// Resolve the multisampled image, once all steps are recorded.
    ResolveMultisampling,
}

/// The `k`-th action after the clear, with `factories` command factories:
/// the steps one after the other, each running every factory in order and
/// then refreshing the buffers.
pub open spec fn step_action(factories: nat, k: int) -> RenderAction {
    let d: int = factories as int + 1;
    let step: int = k / d;
    let slot: int = k % d;
    if slot < factories {
        RenderAction::RunFactory { step: step as u32, factory: slot as usize }
    } else {
        RenderAction::RefreshBuffers { step: step as u32 }
    }
}

/// The `k`-th action of a frame rendered in `steps` steps: the clear, then
/// the steps, then the multisampling resolve.
pub open spec fn render_action(steps: nat, factories: nat, k: int) -> RenderAction {
    if k == 0 {
        RenderAction::ClearImage
    } else if k <= steps * (factories + 1) {
        step_action(factories, k - 1)
    } else {
        RenderAction::ResolveMultisampling
    }
}

/// The actions that render a frame in `render_steps` steps with
/// `factories` command factories, in order.
pub fn render_schedule(render_steps: u32, factories: usize) -> (actions: Vec<RenderAction>)
    requires
        render_steps * (factories + 1) + 2 <= usize::MAX,
    ensures
        actions.len() == render_steps * (factories + 1) + 2,
        forall|k: int|
            0 <= k < actions.len() ==> #[trigger] actions[k] == render_action(
                render_steps as nat,
                factories as nat,
                k,
            ),
        actions[0] == RenderAction::ClearImage,
        actions[actions.len() - 1] == RenderAction::ResolveMultisampling,
        forall|k: int| 0 < k < actions.len() ==> #[trigger] actions[k] != RenderAction::ClearImage,
{
    let ghost n = factories as nat;
    let ghost r = render_steps as nat;
    assert(render_steps * (factories + 1) >= 0) by (nonlinear_arith);
    let mut actions: Vec<RenderAction> = Vec::new();
    actions.push(RenderAction::ClearImage);
    let mut step: u32 = 0;
    while step < render_steps
        invariant
            step <= render_steps,
            n == factories,
            r == render_steps,
            render_steps * (factories + 1) + 2 <= usize::MAX,
            actions.len() == step * (factories + 1) + 1,
            forall|k: int| 0 <= k < actions.len() ==> #[trigger] actions[k] == render_action(r, n, k),
        decreases render_steps - step,
    {
        assert((step + 1) * (factories + 1) <= render_steps * (factories + 1)) by (nonlinear_arith)
            requires
                step + 1 <= render_steps,
        ;
        assert(step * (factories + 1) + factories + 1 == (step + 1) * (factories + 1))
            by (nonlinear_arith);
        let mut factory: usize = 0;
        while factory <= factories
            invariant
                step < render_steps,
                factory <= factories + 1,
                n == factories,
                r == render_steps,
                (step + 1) * (factories + 1) <= render_steps * (factories + 1),
                render_steps * (factories + 1) + 2 <= usize::MAX,
                step * (factories + 1) + factories + 1 == (step + 1) * (factories + 1),
                actions.len() == step * (factories + 1) + factory + 1,
                forall|k: int| 0 <= k < actions.len() ==> #[trigger] actions[k] == render_action(r, n, k),
            decreases factories + 1 - factory,
        {
            proof {
                let d: int = factories + 1;
                lemma_fundamental_div_mod_converse(step * d + factory, d, step as int, factory as int);
            }
            if factory < factories {
                actions.push(RenderAction::RunFactory { step, factory });
            } else {
                actions.push(RenderAction::RefreshBuffers { step });
            }
            factory = factory + 1;
        }
        step = step + 1;
    }
    actions.push(RenderAction::ResolveMultisampling);
    actions
}

/// A frame starts by clearing the image, and it is cleared nowhere else:
/// for any number of steps and factories.
pub proof fn lemma_schedule_clears_first(steps: nat, factories: nat)
    ensures
        render_action(steps, factories, 0) == RenderAction::ClearImage,
        forall|k: int| k != 0 ==> #[trigger] render_action(steps, factories, k) != RenderAction::ClearImage,
{
}

/// After the factories of step `step` the buffers are refreshed, once per
/// step, with that step's number.
pub proof fn lemma_schedule_refresh_after_step(steps: int, factories: int, step: int)
    requires
        0 <= step < steps,
        steps <= u32::MAX + 1,
        0 <= factories,
    ensures
        render_action(steps as nat, factories as nat, 1 + step * (factories + 1) + factories)
            == (RenderAction::RefreshBuffers { step: step as u32 }),
        forall|k: int|
            1 <= k && k != 1 + step * (factories + 1) + factories ==> #[trigger] render_action(
                steps as nat,
                factories as nat,
                k,
            ) != (RenderAction::RefreshBuffers { step: step as u32 }),
{
    let d: int = factories + 1;
    assert(step * d + d <= steps * d) by (nonlinear_arith)
        requires
            step + 1 <= steps,
            d > 0,
    ;
    lemma_fundamental_div_mod_converse(step * d + factories, d, step as int, factories as int);
    assert forall|k: int|
        1 <= k && k != 1 + step * (factories + 1) + factories implies #[trigger] render_action(
            steps as nat,
            factories as nat,
            k,
        ) != (RenderAction::RefreshBuffers { step: step as u32 }) by {
        if k <= steps * d {
            let q: int = (k - 1) / d;
            let r: int = (k - 1) % d;
            assert(k - 1 == q * d + r) by (nonlinear_arith)
                requires
                    d > 0,
                    q == (k - 1) / d,
                    r == (k - 1) % d,
            ;
            assert(0 <= r < d) by (nonlinear_arith)
                requires
                    d > 0,
                    r == (k - 1) % d,
            ;
            assert(0 <= q < steps) by (nonlinear_arith)
                requires
                    d > 0,
                    k - 1 >= 0,
                    k - 1 < steps * d,
                    q == (k - 1) / d,
            ;
            assert(q as u32 == q);
            assert(step as u32 == step);
        }
    }
}

/// Every factory runs exactly once in every step, steps in order; the
/// buffers are refreshed after each step's factories; the multisampling
/// resolve runs exactly once, last.
pub proof fn lemma_each_factory_once_per_step(steps: int, factories: int, step: int, factory: int)
    requires
        0 <= factory < factories,
        0 <= step < steps,
        steps <= u32::MAX + 1,
        factories <= usize::MAX,
    ensures
        render_action(steps as nat, factories as nat, 1 + step * (factories + 1) + factory)
            == (RenderAction::RunFactory { step: step as u32, factory: factory as usize }),
        render_action(steps as nat, factories as nat, 1 + step * (factories + 1) + factories)
            == (RenderAction::RefreshBuffers { step: step as u32 }),
        forall|k: int|
            1 <= k && k != 1 + step * (factories + 1) + factory ==> #[trigger] render_action(
                steps as nat,
                factories as nat,
                k,
            ) != (RenderAction::RunFactory { step: step as u32, factory: factory as usize }),
        render_action(steps as nat, factories as nat, 1 + steps * (factories + 1))
            == RenderAction::ResolveMultisampling,
        forall|k: int|
            0 <= k < 1 + steps * (factories + 1) ==> #[trigger] render_action(
                steps as nat,
                factories as nat,
                k,
            ) != RenderAction::ResolveMultisampling,
{
    let d: int = factories + 1;
    assert(step * d + d <= steps * d) by (nonlinear_arith)
        requires
            step + 1 <= steps,
            d > 0,
    ;
    lemma_fundamental_div_mod_converse(step * d + factory, d, step as int, factory as int);
    lemma_fundamental_div_mod_converse(step * d + factories, d, step as int, factories as int);
    assert forall|k: int|
        1 <= k && k != 1 + step * (factories + 1) + factory implies #[trigger] render_action(
            steps as nat,
            factories as nat,
            k,
        ) != (RenderAction::RunFactory { step: step as u32, factory: factory as usize }) by {
        if k <= steps * d {
            let q: int = (k - 1) / d;
            let r: int = (k - 1) % d;
            assert(k - 1 == q * d + r) by (nonlinear_arith)
                requires
                    d > 0,
                    q == (k - 1) / d,
                    r == (k - 1) % d,
            ;
            assert(0 <= r < d) by (nonlinear_arith)
                requires
                    d > 0,
                    r == (k - 1) % d,
            ;
            assert(0 <= q < steps) by (nonlinear_arith)
                requires
                    d > 0,
                    k - 1 >= 0,
                    k - 1 < steps * d,
                    q == (k - 1) / d,
            ;
            assert(q as u32 == q);
            if r < factories {
                assert(r as usize == r);
                assert(factory as usize == factory);
                assert(step as u32 == step);
            }
        }
    }
}

} // verus!
