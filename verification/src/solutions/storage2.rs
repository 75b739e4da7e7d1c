//! A list in storage: a contract that keeps the tasks of its owner.

use vstd::prelude::*;

use crate::solutions::account::Address;

verus! {

/// Why an operation was refused.
#[derive(Clone, Copy, Debug, PartialEq, Eq, Structural)]
pub enum Error {
    /// The caller is not the owner.
    NotOwner,
    /// No task stands at the index.
    TaskNotFound,
    /// There is no task to remove.
    NoTasks,
}

/// One task.
#[derive(Debug)]
pub struct Task {
    /// What is to be done.
    pub description: String,
    /// Whether it is done.
    pub completed: bool,
}

impl View for Task {
    type V = (Seq<char>, bool);

    open spec fn view(&self) -> (Seq<char>, bool) {
        (self.description@, self.completed)
    }
}

impl DeepView for Task {
    type V = (Seq<char>, bool);

    open spec fn deep_view(&self) -> (Seq<char>, bool) {
        self@
    }
}

impl Clone for Task {
    fn clone(&self) -> (r: Self)
        ensures
            r == *self,
    {
        Task { description: self.description.clone(), completed: self.completed }
    }
}

/// A contract that keeps a list of tasks for its owner.
#[derive(Debug)]
pub struct Storage2 {
    tasks: Vec<Task>,
    owner: Address,
}

/// The mathematical value of a [`Storage2`].
pub struct Storage2View {
    /// The tasks, each with its description and whether it is done.
    pub tasks: Seq<(Seq<char>, bool)>,
    pub owner: Address,
}

impl View for Storage2 {
    type V = Storage2View;

    closed spec fn view(&self) -> Storage2View {
        Storage2View { tasks: self.tasks.deep_view(), owner: self.owner }
    }
}

impl Storage2 {
    /// What holds of every such contract: the number of its tasks fits the
    /// 32 bits of an index.
    #[verifier::type_invariant]
    pub closed spec fn inv(&self) -> bool {
        self.tasks.len() <= u32::MAX
    }

    /// A contract without tasks, owned by the caller.
    pub fn new(caller: Address) -> (r: Self)
        ensures
            r@ == (Storage2View { tasks: Seq::empty(), owner: caller }),
    {
        let r = Self { tasks: Vec::new(), owner: caller };
        assert(r.tasks.deep_view() =~= Seq::empty());
        r
    }

    /// Adds a task that is not done at the end of the list, for the owner
    /// only. The list must have room for it.
    pub fn add_task(&mut self, caller: Address, description: String) -> (r: Result<(), Error>)
        requires
            old(self)@.tasks.len() < u32::MAX,
        ensures
            match r {
                Ok(()) => caller == old(self)@.owner && final(self)@ == (Storage2View {
                    tasks: old(self)@.tasks.push((description@, false)),
                    ..old(self)@
                }),
                Err(e) => e == Error::NotOwner && caller != old(self)@.owner && final(self)@
                    == old(self)@,
            },
    {
        if caller != self.owner {
            return Err(Error::NotOwner);
        }
        let ghost before = self.tasks.deep_view();
        let mut tasks: Vec<Task> = Vec::new();
        core::mem::swap(&mut self.tasks, &mut tasks);
        tasks.push(Task { description, completed: false });
        assert(tasks.deep_view() =~= before.push((description@, false)));
        self.tasks = tasks;
        Ok(())
    }

    /// The task at `index`, if there is one.
    pub fn get_task(&self, index: u32) -> (r: Option<Task>)
        ensures
            match r {
                Some(task) => index < self@.tasks.len() && task@ == self@.tasks[index as int],
                None => index >= self@.tasks.len(),
            },
    {
        let at = index as usize;
        if at < self.tasks.len() {
            assert(self.tasks.deep_view()[at as int] == self.tasks[at as int]@);
            Some(self.tasks[at].clone())
        } else {
            None
        }
    }

    /// Marks the task at `index` as done, for the owner only.
    pub fn complete_task(&mut self, caller: Address, index: u32) -> (r: Result<(), Error>)
        ensures
            match r {
                Ok(()) => {
                    &&& caller == old(self)@.owner
                    &&& index < old(self)@.tasks.len()
                    &&& final(self)@ == (Storage2View {
                        tasks: old(self)@.tasks.update(
                            index as int,
                            (old(self)@.tasks[index as int].0, true),
                        ),
                        ..old(self)@
                    })
                },
                Err(e) => {
                    &&& final(self)@ == old(self)@
                    &&& e == if caller != old(self)@.owner {
                        Error::NotOwner
                    } else {
                        Error::TaskNotFound
                    }
                    &&& caller != old(self)@.owner || index >= old(self)@.tasks.len()
                },
            },
    {
        proof {
            use_type_invariant(&*self);
        }
        if caller != self.owner {
            return Err(Error::NotOwner);
        }
        let at = index as usize;
        if at >= self.tasks.len() {
            return Err(Error::TaskNotFound);
        }
        let ghost before = self.tasks.deep_view();
        assert(before[at as int] == self.tasks[at as int]@);
        let done = Task { description: self.tasks[at].description.clone(), completed: true };
        let mut tasks: Vec<Task> = Vec::new();
        core::mem::swap(&mut self.tasks, &mut tasks);
        tasks.set(at, done);
        assert(tasks.deep_view() =~= before.update(at as int, (before[at as int].0, true)));
        self.tasks = tasks;
        Ok(())
    }

    /// The number of tasks.
    pub fn task_count(&self) -> (r: u32)
        ensures
            r == self@.tasks.len(),
    {
        proof {
            use_type_invariant(self);
        }
        self.tasks.len() as u32
    }

    /// All tasks, in order.
    pub fn get_all_tasks(&self) -> (r: Vec<Task>)
        ensures
            r.deep_view() == self@.tasks,
    {
        let r = self.tasks.clone();
        assert(r.deep_view() =~= self.tasks.deep_view());
        r
    }

    /// Removes the last task, for the owner only.
    pub fn remove_last_task(&mut self, caller: Address) -> (r: Result<(), Error>)
        ensures
            match r {
                Ok(()) => {
                    &&& caller == old(self)@.owner
                    &&& old(self)@.tasks.len() > 0
                    &&& final(self)@ == (Storage2View {
                        tasks: old(self)@.tasks.drop_last(),
                        ..old(self)@
                    })
                },
                Err(e) => {
                    &&& final(self)@ == old(self)@
                    &&& e == if caller != old(self)@.owner {
                        Error::NotOwner
                    } else {
                        Error::NoTasks
                    }
                    &&& caller != old(self)@.owner || old(self)@.tasks.len() == 0
                },
            },
    {
        proof {
            use_type_invariant(&*self);
        }
        if caller != self.owner {
            return Err(Error::NotOwner);
        }
        let ghost before = self.tasks.deep_view();
        let mut tasks: Vec<Task> = Vec::new();
        core::mem::swap(&mut self.tasks, &mut tasks);
        let removed = tasks.pop();
        assert(removed.is_some() ==> tasks.deep_view() =~= before.drop_last());
        assert(removed.is_none() ==> tasks.deep_view() =~= before);
        self.tasks = tasks;
        match removed {
            Some(_) => Ok(()),
            None => Err(Error::NoTasks),
        }
    }

    /// The owner.
    pub fn get_owner(&self) -> (r: Address)
        ensures
            r == self@.owner,
    {
        self.owner
    }
}

} // verus!
