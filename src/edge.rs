//! Registration of edge functions and a stand-in executor that runs
//! nothing and reports success with empty output.
use vstd::prelude::*;
use crate::error::ProtocolError;
use crate::message::now_micros;
use crate::unique_keys;

verus! {

/// A deployable function.
#[derive(Clone, Debug)]
pub struct EdgeFunction {
    pub id: String,
    pub name: String,
    pub version: String,
    pub runtime: String,
    pub code: Vec<u8>,
    /// Configuration by key; keys are unique.
    pub config: Vec<(String, String)>,
}

impl EdgeFunction {
    /// Configuration keys are unique.
    pub open spec fn wf(&self) -> bool {
        unique_keys(self.config@)
    }
}

/// Every function of `s` is well formed.
pub open spec fn all_functions_wf(s: Seq<EdgeFunction>) -> bool {
    forall|i: int| 0 <= i < s.len() ==> #[trigger] s[i].wf()
}

/// Resources that one execution used.
#[derive(Clone, Copy, Debug, PartialEq, Eq, Structural)]
pub struct ResourceUsage {
    pub cpu_time_ms: u64,
    pub memory_bytes: u64,
    pub network_bytes: u64,
}

/// The outcome of one execution.
#[derive(Clone, Debug)]
pub struct EdgeComputeResult {
    pub function_id: String,
    pub success: bool,
    pub output: Option<Vec<u8>>,
    pub error: Option<String>,
    /// Milliseconds the execution took.
    pub execution_time: u64,
    pub resources_used: ResourceUsage,
}

/// The functions of `s` whose id is not `id`, in order.
pub open spec fn without_id(s: Seq<EdgeFunction>, id: Seq<char>) -> Seq<EdgeFunction>
    decreases s.len(),
{
    if s.len() == 0 {
        Seq::empty()
    } else if s.last().id@ == id {
        without_id(s.drop_last(), id)
    } else {
        without_id(s.drop_last(), id).push(s.last())
    }
}

/// Some function of `s` has id `id`.
pub open spec fn has_function(s: Seq<EdgeFunction>, id: Seq<char>) -> bool {
    exists|i: int| 0 <= i < s.len() && #[trigger] s[i].id@ == id
}

/// `without_id` leaves no function with that id, and drops one exactly when there was one.
proof fn lemma_without_id(s: Seq<EdgeFunction>, id: Seq<char>)
    ensures
        all_functions_wf(s) ==> all_functions_wf(without_id(s, id)),
        !has_function(without_id(s, id), id),
        has_function(s, id) <==> without_id(s, id).len() < s.len(),
        without_id(s, id).len() <= s.len(),
    decreases s.len(),
{
    if s.len() > 0 {
        let d = s.drop_last();
        lemma_without_id(d, id);
        let w = without_id(s, id);
        if all_functions_wf(s) {
            assert(all_functions_wf(d)) by {
                assert forall|i: int| 0 <= i < d.len() implies #[trigger] d[i].wf() by {
                    assert(d[i] == s[i]);
                }
            }
            assert(s[s.len() - 1] == s.last());
            assert(s.last().wf());
        }
        if has_function(w, id) {
            let n = choose|n: int| 0 <= n < w.len() && #[trigger] w[n].id@ == id;
            if s.last().id@ != id && n == w.len() - 1 {
            } else {
                assert(without_id(d, id)[n].id@ == id);
            }
        }
        if has_function(s, id) && s.last().id@ != id {
            let n = choose|n: int| 0 <= n < s.len() && #[trigger] s[n].id@ == id;
            assert(d[n].id@ == id);
        }
        if has_function(d, id) {
            let n = choose|n: int| 0 <= n < d.len() && #[trigger] d[n].id@ == id;
            assert(s[n].id@ == id);
        }
        if s.last().id@ == id {
            assert(s[s.len() - 1].id@ == id);
        }
    }
}

/// No two functions of `s` share an id.
pub open spec fn unique_function_ids(s: Seq<EdgeFunction>) -> bool {
    forall|i: int, j: int|
        0 <= i < s.len() && 0 <= j < s.len() && i != j ==> #[trigger] s[i].id@ != #[trigger] s[j].id@
}

/// What `without_id` keeps comes from `s`, and it keeps ids unique.
proof fn lemma_without_id_unique(s: Seq<EdgeFunction>, id: Seq<char>)
    ensures
        forall|x: EdgeFunction| #[trigger] without_id(s, id).contains(x) ==> s.contains(x),
        unique_function_ids(s) ==> unique_function_ids(without_id(s, id)),
    decreases s.len(),
{
    if s.len() > 0 {
        let d = s.drop_last();
        lemma_without_id_unique(d, id);
        let r = without_id(d, id);
        let w = without_id(s, id);
        assert forall|x: EdgeFunction| #[trigger] w.contains(x) implies s.contains(x) by {
            if s.last().id@ != id && x == s.last() {
                assert(s[s.len() - 1] == x);
            } else {
                assert(r.contains(x));
                let n = choose|n: int| 0 <= n < d.len() && d[n] == x;
                assert(s[n] == x);
            }
        }
        if unique_function_ids(s) {
            assert(unique_function_ids(d)) by {
                assert forall|a: int, b: int|
                    0 <= a < d.len() && 0 <= b < d.len() && a != b implies #[trigger] d[a].id@
                    != #[trigger] d[b].id@ by {
                    assert(d[a] == s[a] && d[b] == s[b]);
                }
            }
            if s.last().id@ != id {
                assert forall|a: int, b: int|
                    0 <= a < w.len() && 0 <= b < w.len() && a != b implies #[trigger] w[a].id@
                    != #[trigger] w[b].id@ by {
                    if a == w.len() - 1 || b == w.len() - 1 {
                        let o = if a == w.len() - 1 { b } else { a };
                        assert(r.contains(r[o]));
                        let n = choose|n: int| 0 <= n < d.len() && d[n] == r[o];
                        assert(s[n] == w[o] && s[s.len() - 1] == s.last());
                    } else {
                        assert(w[a] == r[a] && w[b] == r[b]);
                    }
                }
            }
        }
    }
}

/// Registered functions, by id.
pub struct EdgeCompute {
    functions: Vec<EdgeFunction>,
}

impl EdgeCompute {
    /// The registered functions, oldest registration first.
    pub closed spec fn functions(&self) -> Seq<EdgeFunction> {
        self.functions@
    }

    /// Ids are unique and every registered function is well formed.
    pub open spec fn wf(&self) -> bool {
        unique_function_ids(self.functions()) && all_functions_wf(self.functions())
    }

    /// No function registered.
    pub fn new() -> (r: EdgeCompute)
        ensures
            r.wf(),
            r.functions() == Seq::<EdgeFunction>::empty(),
    {
        EdgeCompute { functions: Vec::new() }
    }

    /// Drops the functions with id `id`.
    fn drop_id(&mut self, id: &str)
        ensures
            final(self).functions() == without_id(old(self).functions(), id@),
    {
        let wanted = id.to_owned();
        let ghost o = self.functions@;
        let ghost mut i: int = 0;
        let mut j: usize = 0;
        while j < self.functions.len()
            invariant
                0 <= i <= o.len(),
                wanted@ == id@,
                j == without_id(o.take(i), id@).len(),
                self.functions@ == without_id(o.take(i), id@) + o.skip(i),
            decreases self.functions@.len() - j,
        {
            proof {
                assert(o.take(i + 1).drop_last() =~= o.take(i));
                assert(o.take(i + 1).last() == o[i]);
                assert(self.functions@[j as int] == o[i]);
                assert(o.skip(i) =~= seq![o[i]] + o.skip(i + 1));
            }
            if self.functions[j].id == wanted {
                self.functions.remove(j);
            } else {
                j = j + 1;
            }
            proof {
                i = i + 1;
                assert(self.functions@ =~= without_id(o.take(i), id@) + o.skip(i));
            }
        }
        proof {
            assert(o.take(i) =~= o);
        }
    }

    /// Registers `function`, replacing a function with the same id.
    pub fn register_function(&mut self, function: EdgeFunction) -> (r: Result<(), ProtocolError>)
        ensures
            r is Ok,
            old(self).wf() && function.wf() ==> final(self).wf(),
            final(self).functions() == without_id(old(self).functions(), function.id@).push(
                function,
            ),
    {
        proof {
            lemma_without_id(self.functions@, function.id@);
            lemma_without_id_unique(self.functions@, function.id@);
        }
        self.drop_id(function.id.as_str());
        self.functions.push(function);
        proof {
            let f = self.functions@;
            let d = f.drop_last();
            if old(self).wf() && function.wf() {
                assert forall|i: int| 0 <= i < f.len() implies #[trigger] f[i].wf() by {
                    if i < f.len() - 1 {
                        assert(f[i] == d[i]);
                    }
                }
                assert forall|a: int, b: int|
                    0 <= a < f.len() && 0 <= b < f.len() && a != b implies #[trigger] f[a].id@
                    != #[trigger] f[b].id@ by {
                    if a == f.len() - 1 || b == f.len() - 1 {
                        let o = if a == f.len() - 1 { b } else { a };
                        assert(f[o] == d[o]);
                        assert(!has_function(d, function.id@));
                    } else {
                        assert(f[a] == d[a] && f[b] == d[b]);
                    }
                }
            }
        }
        Ok(())
    }

    /// Runs the function with id `function_id`: reports success with empty
    /// output and no resources used. Fails with `InvalidFormat` when no
    /// such function is registered.
    pub fn execute_function(&self, function_id: &str, input: Vec<u8>) -> (r: Result<
        EdgeComputeResult,
        ProtocolError,
    >)
        ensures
            (r is Ok) <==> has_function(self.functions(), function_id@),
            r matches Err(e) ==> e is InvalidFormat,
            r matches Ok(res) ==> {
                &&& res.function_id@ == function_id@
                &&& res.success
                &&& res.output matches Some(out) && out@.len() == 0
                &&& res.error is None
                &&& res.resources_used == (ResourceUsage {
                    cpu_time_ms: 0,
                    memory_bytes: 0,
                    network_bytes: 0,
                })
            },
    {
        let wanted = function_id.to_owned();
        let mut found = false;
        let mut i: usize = 0;
        while i < self.functions.len()
            invariant
                i <= self.functions@.len(),
                wanted@ == function_id@,
                found == exists|k: int| 0 <= k < i && #[trigger] self.functions@[k].id@ == function_id@,
            decreases self.functions@.len() - i,
        {
            if self.functions[i].id == wanted {
                found = true;
            }
            i = i + 1;
        }
        if !found {
            return Err(ProtocolError::InvalidFormat(String::from_str("Function not found")));
        }
        let start = now_micros();
        let end = now_micros();
        let elapsed_ms = if end >= start {
            (end - start) / 1000
        } else {
            0
        };
        Ok(
            EdgeComputeResult {
                function_id: wanted,
                success: true,
                output: Some(Vec::new()),
                error: None,
                execution_time: elapsed_ms,
                resources_used: ResourceUsage { cpu_time_ms: 0, memory_bytes: 0, network_bytes: 0 },
            },
        )
    }

    /// The registered functions, oldest registration first.
    pub fn list_functions(&self) -> (r: Vec<&EdgeFunction>)
        ensures
            r@.len() == self.functions().len(),
            forall|k: int| 0 <= k < r@.len() ==> *#[trigger] r@[k] == self.functions()[k],
    {
        let mut r: Vec<&EdgeFunction> = Vec::new();
        let mut i: usize = 0;
        while i < self.functions.len()
            invariant
                i <= self.functions@.len(),
                r@.len() == i,
                forall|k: int| 0 <= k < i ==> *#[trigger] r@[k] == self.functions@[k],
            decreases self.functions@.len() - i,
        {
            r.push(&self.functions[i]);
            i = i + 1;
        }
        r
    }

    /// Removes the function with id `id`. Fails with `InvalidFormat`,
    /// changing nothing, when there is none.
    pub fn remove_function(&mut self, id: &str) -> (r: Result<(), ProtocolError>)
        ensures
            (r is Ok) <==> has_function(old(self).functions(), id@),
            r matches Err(e) ==> e is InvalidFormat,
            old(self).wf() ==> final(self).wf(),
            final(self).functions() == without_id(old(self).functions(), id@),
    {
        proof {
            lemma_without_id(self.functions@, id@);
            lemma_without_id_unique(self.functions@, id@);
        }
        let before = self.functions.len();
        self.drop_id(id);
        if self.functions.len() == before {
            Err(ProtocolError::InvalidFormat(String::from_str("Function not found")))
        } else {
            Ok(())
        }
    }
}

} // verus!
