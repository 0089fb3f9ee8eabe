use vstd::prelude::*;
use vstd::std_specs::cmp::PartialEqSpec;

verus! {

/// A value together with something derived from it (typically a GPU
/// resource built for it).  The derived value is built lazily, on demand,
/// and is dropped whenever the value is replaced, so that it is rebuilt for
/// the new value.
pub struct Mutable<State, Depends> {
    state: State,
    depends: Option<Depends>,
}

/// An operation on a [`Mutable`], as its effect on the cell.
pub enum CellOp<State, Depends> {
    /// `new(state)`.
    New(State),
    /// `change(f)`, where `f` returned the given state.
    Change(State),
    /// `change_with_check(state)` or `change_with_check_in_place(state)`.
    CheckedChange(State),
    /// `get_depends_or_init(f)`, where `f` (if called) returns the given value.
    Init(Depends),
    /// `state()` or `is_changed()`.
    Read,
}

/// The cell `(current, cached)` after one operation.
pub open spec fn cell_step<State: PartialEq, Depends>(
    cell: (State, Option<Depends>),
    op: CellOp<State, Depends>,
) -> (State, Option<Depends>) {
    match op {
        CellOp::New(s) => (s, None),
        CellOp::Change(s) => (s, None),
        CellOp::CheckedChange(s) => if cell.0.eq_spec(&s) {
            cell
        } else {
            (s, None)
        },
        CellOp::Init(d) => if cell.1 is Some {
            cell
        } else {
            (cell.0, Some(d))
        },
        CellOp::Read => cell,
    }
}

/// The cell after a sequence of operations, in order.
pub open spec fn cell_run<State: PartialEq, Depends>(
    cell: (State, Option<Depends>),
    ops: Seq<CellOp<State, Depends>>,
) -> (State, Option<Depends>)
    decreases ops.len(),
{
    if ops.len() == 0 {
        cell
    } else {
        cell_step(cell_run(cell, ops.drop_last()), ops.last())
    }
}

/// The current value and the "changed" flag (nothing cached) after a
/// sequence of operations, tracked without the derived values: `new`,
/// `change` and a checked change to an unequal value raise the flag,
/// `get_depends_or_init` lowers it, reads and checked changes to an equal
/// value leave everything as it was.
pub open spec fn changed_run<State: PartialEq, Depends>(
    state: State,
    changed: bool,
    ops: Seq<CellOp<State, Depends>>,
) -> (State, bool)
    decreases ops.len(),
{
    if ops.len() == 0 {
        (state, changed)
    } else {
        let (s, c) = changed_run(state, changed, ops.drop_last());
        match ops.last() {
            CellOp::New(x) => (x, true),
            CellOp::Change(x) => (x, true),
            CellOp::CheckedChange(x) => if s.eq_spec(&x) {
                (s, c)
            } else {
                (x, true)
            },
            CellOp::Init(_) => (s, false),
            CellOp::Read => (s, c),
        }
    }
}

/// Over any sequence of operations, the current value and whether the cell
/// is changed (so that the next `get_depends_or_init` calls its function)
/// evolve as [`changed_run`] says: the derived values never influence them.
pub proof fn lemma_cell_changed_flag<State: PartialEq, Depends>(
    cell: (State, Option<Depends>),
    ops: Seq<CellOp<State, Depends>>,
)
    ensures
        cell_run(cell, ops).0 == changed_run(cell.0, cell.1 is None, ops).0,
        (cell_run(cell, ops).1 is None) == changed_run(cell.0, cell.1 is None, ops).1,
    decreases ops.len(),
{
    if ops.len() > 0 {
        lemma_cell_changed_flag(cell, ops.drop_last());
    }
}

/// Operations that only read, or set a value equal to the current one,
/// leave the cell (value and derived value) exactly as it was; after a
/// `get_depends_or_init` the cell holds a derived value until the next real
/// change.
pub proof fn lemma_cell_stable_suffix<State: PartialEq, Depends>(
    cell: (State, Option<Depends>),
    ops: Seq<CellOp<State, Depends>>,
)
    requires
        forall|i: int|
            0 <= i < ops.len() ==> match #[trigger] ops[i] {
                CellOp::Read => true,
                CellOp::CheckedChange(x) => cell.0.eq_spec(&x),
                CellOp::Init(_) => cell.1 is Some,
                _ => false,
            },
    ensures
        cell_run(cell, ops) == cell,
    decreases ops.len(),
{
    if ops.len() > 0 {
        let prefix = ops.drop_last();
        assert forall|i: int| 0 <= i < prefix.len() implies match #[trigger] prefix[i] {
            CellOp::Read => true,
            CellOp::CheckedChange(x) => cell.0.eq_spec(&x),
            CellOp::Init(_) => cell.1 is Some,
            _ => false,
        } by {
            assert(prefix[i] == ops[i]);
        }
        lemma_cell_stable_suffix(cell, prefix);
        assert(ops[ops.len() - 1] == ops.last());
    }
}

/// A cell that holds a derived value and is set to a length again reuses
/// that value exactly when the length is unchanged; otherwise the value
/// built for the new length is cached.
pub proof fn lemma_reuse_iff_same_length<Depends>(
    cell: (usize, Option<Depends>),
    len: usize,
    built: Depends,
)
    requires
        cell.1 is Some,
    ensures
        len == cell.0 ==> cell_run(cell, seq![CellOp::CheckedChange(len), CellOp::Init(built)])
            == cell,
        len != cell.0 ==> cell_run(cell, seq![CellOp::CheckedChange(len), CellOp::Init(built)])
            == (len, Some(built)),
{
    let ops = seq![CellOp::CheckedChange(len), CellOp::Init(built)];
    assert(ops.drop_last() =~= seq![CellOp::CheckedChange(len)]);
    assert(ops.drop_last().drop_last() =~= Seq::<CellOp<usize, Depends>>::empty());
    assert(ops.drop_last().last() == CellOp::<usize, Depends>::CheckedChange(len));
    assert(ops.last() == CellOp::<usize, Depends>::Init(built));
    assert(cell.0.eq_spec(&len) == (cell.0 == len));
    assert(cell_run(cell, ops.drop_last().drop_last()) == cell);
    let mid = cell_run(cell, ops.drop_last());
    assert(mid == cell_step(cell, CellOp::<usize, Depends>::CheckedChange(len)));
}

impl<State, Depends> Mutable<State, Depends> {
    /// The current value.
    pub closed spec fn current(&self) -> State {
        self.state
    }

    /// The derived value built for the current value, if one was built.
    pub closed spec fn cached(&self) -> Option<Depends> {
        self.depends
    }

    /// The cell as a pair: current value and cached derived value.
    pub open spec fn cell(&self) -> (State, Option<Depends>) {
        (self.current(), self.cached())
    }

    /// A cell holding `state`, with nothing derived from it yet.
    pub fn new(state: State) -> (r: Self)
        ensures
            r.current() == state,
            r.cached() is None,
            r.cell() == (state, None::<Depends>),
    {
        Self { state, depends: None }
    }

    /// Replaces the value by `f` applied to it; the derived value is dropped.
    pub fn change(self, f: impl FnOnce(State) -> State) -> (r: Self)
        requires
            f.requires((self.current(),)),
        ensures
            f.ensures((self.current(),), r.current()),
            r.cached() is None,
            r.cell() == (r.current(), None::<Depends>),
    {
        let state = f(self.state);
        Self::new(state)
    }

    /// Replaces the value by `new_state` unless it equals the current one;
    /// only a real replacement drops the derived value.
    pub fn change_with_check(self, new_state: State) -> (r: Self) where State: PartialEq<State>
        ensures
            r == self || (r.current() == new_state && r.cached() is None),
            State::obeys_eq_spec() && self.current().eq_spec(&new_state) ==> r == self,
            State::obeys_eq_spec() && !self.current().eq_spec(&new_state) ==> r.current()
                == new_state && r.cached() is None,
            State::obeys_eq_spec() ==> r.cell() == cell_step(
                self.cell(),
                CellOp::CheckedChange(new_state),
            ),
    {
        if self.state == new_state {
            self
        } else {
            Self::new(new_state)
        }
    }

    /// In-place form of [`Mutable::change_with_check`].
    pub fn change_with_check_in_place(&mut self, new_state: State) where State: PartialEq<State>
        ensures
            *final(self) == *old(self) || (final(self).current() == new_state
                && final(self).cached() is None),
            State::obeys_eq_spec() && old(self).current().eq_spec(&new_state)
                ==> *final(self) == *old(self),
            State::obeys_eq_spec() && !old(self).current().eq_spec(&new_state)
                ==> final(self).current() == new_state && final(self).cached() is None,
            State::obeys_eq_spec() ==> final(self).cell() == cell_step(
                old(self).cell(),
                CellOp::CheckedChange(new_state),
            ),
    {
        if self.state != new_state {
            let new_val = Self::new(new_state);
            *self = new_val;
        }
    }

    /// The derived value, built by `f` from the current value when none is
    /// cached; a cached one is returned as it is, without calling `f`.
    pub fn get_depends_or_init(&mut self, f: impl FnOnce(&State) -> Depends) -> (r: &Depends)
        requires
            old(self).cached() is None ==> f.requires((&old(self).current(),)),
        ensures
            final(self).current() == old(self).current(),
            final(self).cached() == Some(*r),
            old(self).cached() is Some ==> final(self).cached() == old(self).cached(),
            old(self).cached() is None ==> f.ensures((&old(self).current(),), *r),
            final(self).cell() == (if old(self).cached() is Some {
                old(self).cell()
            } else {
                (old(self).current(), Some(*r))
            }),
    {
        match &self.depends {
            Some(_) => {},
            None => {
                self.depends = Some(f(&self.state));
            },
        }
        self.depends.as_ref().unwrap()
    }

    /// Whether the value was set since the derived value was last built.
    pub fn is_changed(&self) -> (r: bool)
        ensures
            r == (self.cached() is None),
    {
        self.depends.is_none()
    }

    /// The current value.
    pub fn state(&self) -> (r: &State)
        ensures
            *r == self.current(),
    {
        &self.state
    }
}

} // verus!
