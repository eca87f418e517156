//! The registry of native functions that scripts can call by id.
use vstd::prelude::*;
use vstd::string::*;

verus! {

/// Native functions, each under the id it was registered with: the ids are
/// 0, 1, 2, … in the order of registration.
pub struct NativeRegistry<F> {
    functions: Vec<F>,
}

impl<F> NativeRegistry<F> {
    /// The registered functions, by id.
    pub closed spec fn functions(&self) -> Seq<F> {
        self.functions@
    }

    /// An empty registry.
    pub fn new() -> (r: Self)
        ensures
            r.functions() == Seq::<F>::empty(),
    {
        NativeRegistry { functions: Vec::new() }
    }

    /// Registers `func` and returns its id: the number of functions registered before.
    pub fn register(&mut self, func: F) -> (id: usize)
        ensures
            id == old(self).functions().len(),
            final(self).functions() == old(self).functions().push(func),
    {
        let id = self.functions.len();
        self.functions.push(func);
        id
    }

    /// The function registered under `id`, if any.
    pub fn get(&self, id: usize) -> (r: Option<&F>)
        ensures
            match r {
                Some(f) => id < self.functions().len() && *f == self.functions()[id as int],
                None => id >= self.functions().len(),
            },
    {
        if id < self.functions.len() {
            Some(&self.functions[id])
        } else {
            None
        }
    }

    /// Calls the function registered under `id` with `args`; an error
    /// `Function not found` where no function has that id.
    pub fn call<V>(&self, id: usize, args: &[V]) -> (r: Result<V, String>)
        where
            F: Fn(&[V]) -> Result<V, String>,
        requires
            id < self.functions().len() ==> call_requires(self.functions()[id as int], (args,)),
        ensures
            id < self.functions().len() ==> call_ensures(self.functions()[id as int], (args,), r),
            id >= self.functions().len() ==> (r matches Err(e) && e@ == "Function not found"@),
    {
        match self.get(id) {
            Some(f) => f(args),
            None => Err(String::from_str("Function not found")),
        }
    }
}

impl<F> Default for NativeRegistry<F> {
    /// An empty registry.
    fn default() -> (r: Self)
        ensures
            r.functions() == Seq::<F>::empty(),
    {
        Self::new()
    }
}

/// A registered function is found under the id that registering it returned,
/// and registering leaves the functions registered before it where they were.
pub proof fn law_register_then_get<F>(before: Seq<F>, func: F, id: int)
    requires
        0 <= id < before.len(),
    ensures
        before.push(func)[before.len() as int] == func,
        before.push(func)[id] == before[id],
        before.push(func).len() == before.len() + 1,
{
}

} // verus!
