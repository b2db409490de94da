//! A history of commands that can be undone and redone.
use vstd::prelude::*;
use vstd::string::StringExecFns;
use std::collections::VecDeque;
use crate::call::call_on;

verus! {

/// A command that can be executed and taken back.
pub trait UndoCommand: Send {
    /// Do what the command stands for.
    fn execute(&mut self);

    /// Take back what `execute` did.
    fn undo(&mut self);

    /// The command in words.
    fn description(&self) -> &str;
}

/// A boxed command is a command: that of the box does the work, and the
/// words of the box are those of the command in it.
impl<T: UndoCommand + ?Sized> UndoCommand for Box<T> {
    fn execute(&mut self)
        ensures
            exists|x: &mut T|
                &*x == &**old(self) && &*final(x) == &**final(self) && #[trigger] call_ensures(T::execute, (x,), ()),
    {
        call_on(T::execute, &mut **self)
    }

    fn undo(&mut self)
        ensures
            exists|x: &mut T|
                &*x == &**old(self) && &*final(x) == &**final(self) && #[trigger] call_ensures(T::undo, (x,), ()),
    {
        call_on(T::undo, &mut **self)
    }

    fn description(&self) -> (r: &str)
        ensures
            call_ensures(T::description, (&**self,), r),
    {
        (**self).description()
    }
}

/// The last `limit` commands of `stack`, or all of them if there are no
/// more.
pub open spec fn kept<C>(stack: Seq<C>, limit: nat) -> Seq<C> {
    if stack.len() <= limit {
        stack
    } else {
        stack.skip(stack.len() - limit)
    }
}

/// The history of executed commands of type `C`, and of those that were
/// undone and can be redone.
pub struct UndoHistory<C: UndoCommand> {
    undo_stack: VecDeque<C>,
    redo_stack: VecDeque<C>,
    max_size: usize,
}

impl<C: UndoCommand> UndoHistory<C> {
    /// The number of commands that can be undone.
    pub open spec fn undo_depth(&self) -> nat {
        self.done().len()
    }

    /// The number of commands that can be redone.
    pub open spec fn redo_depth(&self) -> nat {
        self.undone().len()
    }

    /// The number of executed commands that the history keeps at most.
    pub closed spec fn limit(&self) -> usize {
        self.max_size
    }

    /// The executed commands, the latest last.
    pub closed spec fn done(&self) -> Seq<C> {
        self.undo_stack@
    }

    /// The commands that were undone, the latest last.
    pub closed spec fn undone(&self) -> Seq<C> {
        self.redo_stack@
    }

    /// An empty history that keeps `max_size` commands at most.
    pub fn new(max_size: usize) -> (r: Self)
        ensures
            r.done() == Seq::<C>::empty(),
            r.undone() == Seq::<C>::empty(),
            r.limit() == max_size,
    {
        UndoHistory { undo_stack: VecDeque::new(), redo_stack: VecDeque::new(), max_size }
    }

    /// Execute a command and put it on the history: the command's own
    /// `execute` is called once, and the command as that leaves it is the
    /// newest of the history. Nothing can be redone afterwards, and the
    /// oldest commands leave the history where it holds more than its
    /// limit.
    pub fn execute(&mut self, command: C)
        ensures
            final(self).limit() == old(self).limit(),
            final(self).undone() == Seq::<C>::empty(),
            exists|x: &mut C|
                *x == command && #[trigger] call_ensures(C::execute, (x,), ()) && final(self).done() == kept(
                    old(self).done().push(*final(x)),
                    old(self).limit() as nat,
                ),
    {
        let mut command = command;
        call_on(C::execute, &mut command);
        let ghost executed = command;
        self.undo_stack.push_back(command);
        self.redo_stack.clear();
        let ghost grown = self.undo_stack@;
        while self.undo_stack.len() > self.max_size
            invariant
                self.max_size == old(self).max_size,
                self.redo_stack@ == Seq::<C>::empty(),
                grown == old(self).undo_stack@.push(executed),
                self.undo_stack@.len() <= grown.len(),
                self.undo_stack@.len() == grown.len() || self.undo_stack@.len() >= self.max_size,
                self.undo_stack@ == grown.skip(grown.len() - self.undo_stack@.len()),
            decreases self.undo_stack.len(),
        {
            let _ = self.undo_stack.pop_front();
            assert(self.undo_stack@ =~= grown.skip(grown.len() - self.undo_stack@.len()));
        }
        assert(self.undo_stack@ =~= kept(grown, self.max_size as nat));
    }

    /// Undo the latest command: its own `undo` is called once, and the
    /// command as that leaves it can be redone afterwards. The result is
    /// that command in its own words, or `None` where nothing can be undone;
    /// then the history stays as it is.
    pub fn undo(&mut self) -> (r: Option<String>)
        ensures
            final(self).limit() == old(self).limit(),
            r is Some <==> old(self).undo_depth() > 0,
            r is None ==> final(self).done() == old(self).done() && final(self).undone() == old(self).undone(),
            r is Some ==> final(self).done() == old(self).done().drop_last() && exists|x: &mut C|
                *x == old(self).done().last() && #[trigger] call_ensures(C::undo, (x,), ()) && final(self).undone()
                    == old(self).undone().push(*final(x)),
            r matches Some(words) ==> exists|said: &str|
                #[trigger] call_ensures(C::description, (&final(self).undone().last(),), said) && words@ == said@,
    {
        match self.undo_stack.pop_back() {
            Some(command) => {
                let mut command = command;
                call_on(C::undo, &mut command);
                let description: String = String::from_str(command.description());
                let ghost undone = command;
                assert(exists|said: &str|
                    #[trigger] call_ensures(C::description, (&undone,), said) && description@ == said@);
                self.redo_stack.push_back(command);
                assert(self.redo_stack@.last() == undone);
                assert(self.undo_stack@ =~= old(self).undo_stack@.drop_last());
                Some(description)
            },
            None => None,
        }
    }

    /// Redo the command that was undone last: its own `execute` is called
    /// once, and the command as that leaves it can be undone again
    /// afterwards. The result is that command in its own words, or `None`
    /// where nothing can be redone; then the history stays as it is. Redone
    /// commands are not counted against the limit.
    pub fn redo(&mut self) -> (r: Option<String>)
        ensures
            final(self).limit() == old(self).limit(),
            r is Some <==> old(self).redo_depth() > 0,
            r is None ==> final(self).done() == old(self).done() && final(self).undone() == old(self).undone(),
            r is Some ==> final(self).undone() == old(self).undone().drop_last() && exists|x: &mut C|
                *x == old(self).undone().last() && #[trigger] call_ensures(C::execute, (x,), ()) && final(self).done()
                    == old(self).done().push(*final(x)),
            r matches Some(words) ==> exists|said: &str|
                #[trigger] call_ensures(C::description, (&final(self).done().last(),), said) && words@ == said@,
    {
        match self.redo_stack.pop_back() {
            Some(command) => {
                let mut command = command;
                call_on(C::execute, &mut command);
                let description: String = String::from_str(command.description());
                let ghost redone = command;
                assert(exists|said: &str|
                    #[trigger] call_ensures(C::description, (&redone,), said) && description@ == said@);
                self.undo_stack.push_back(command);
                assert(self.undo_stack@.last() == redone);
                assert(self.redo_stack@ =~= old(self).redo_stack@.drop_last());
                Some(description)
            },
            None => None,
        }
    }

    /// Whether a command can be undone.
    pub fn can_undo(&self) -> (r: bool)
        ensures
            r == (self.undo_depth() > 0),
    {
        self.undo_stack.len() > 0
    }

    /// Whether a command can be redone.
    pub fn can_redo(&self) -> (r: bool)
        ensures
            r == (self.redo_depth() > 0),
    {
        self.redo_stack.len() > 0
    }

    /// The command that `undo` would take back, in its own words.
    pub fn undo_description(&self) -> (r: Option<&str>)
        ensures
            r is Some <==> self.undo_depth() > 0,
            r matches Some(said) ==> call_ensures(C::description, (&self.done().last(),), said),
    {
        let depth: usize = self.undo_stack.len();
        if depth > 0 {
            Some(self.undo_stack[depth - 1].description())
        } else {
            None
        }
    }

    /// The command that `redo` would execute again, in its own words.
    pub fn redo_description(&self) -> (r: Option<&str>)
        ensures
            r is Some <==> self.redo_depth() > 0,
            r matches Some(said) ==> call_ensures(C::description, (&self.undone().last(),), said),
    {
        let depth: usize = self.redo_stack.len();
        if depth > 0 {
            Some(self.redo_stack[depth - 1].description())
        } else {
            None
        }
    }

    /// Forget everything.
    pub fn clear(&mut self)
        ensures
            final(self).limit() == old(self).limit(),
            final(self).done() == Seq::<C>::empty(),
            final(self).undone() == Seq::<C>::empty(),
    {
        self.undo_stack.clear();
        self.redo_stack.clear();
    }
}

/// The number of commands that a history keeps unless told otherwise.
pub const DEFAULT_HISTORY: usize = 100;

impl<C: UndoCommand> Default for UndoHistory<C> {
    fn default() -> (r: Self)
        ensures
            r.done() == Seq::<C>::empty(),
            r.undone() == Seq::<C>::empty(),
            r.limit() == DEFAULT_HISTORY,
    {
        UndoHistory::new(DEFAULT_HISTORY)
    }
}

} // verus!
