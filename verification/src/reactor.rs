use vstd::prelude::*;

verus! {

/// One row of the reactor's table: a watched descriptor and the token the
/// multiplexer reports for readiness on it.
#[derive(Clone, Copy, PartialEq, Eq, Structural, Debug)]
pub struct Registration {
    pub fd: i32,
    pub token: u64,
}

/// No token is registered twice.  Registering a duplicate token is a
/// contract violation of the runtime's design, so `register` excludes it.
pub open spec fn wf_table(t: Seq<Registration>) -> bool {
    forall|i: int, j: int|
        0 <= i < j < t.len() ==> (#[trigger] t[i]).token != (#[trigger] t[j]).token
}

/// A token the table knows.
pub open spec fn registered(t: Seq<Registration>, token: u64) -> bool {
    exists|i: int| 0 <= i < t.len() && (#[trigger] t[i]).token == token
}

/// The tokens of `events` that the table knows, in arrival order: the
/// reactor fires one callback per such token and silently ignores the
/// rest.
pub open spec fn fired(t: Seq<Registration>, events: Seq<u64>) -> Seq<u64>
    decreases events.len(),
{
    if events.len() == 0 {
        Seq::<u64>::empty()
    } else {
        fired(t, events.drop_last()) + (if registered(t, events.last()) {
            seq![events.last()]
        } else {
            Seq::<u64>::empty()
        })
    }
}

/// The reactor's decision state: which token stands for which descriptor.
/// The callbacks bound to tokens live with the embedding process, which
/// owns the multiplexer and its waiting thread; this table decides which
/// tokens fire.
#[derive(Debug)]
pub struct Reactor {
    pub table: Vec<Registration>,
}

impl Reactor {
    /// An empty table.
    pub fn new() -> (r: Reactor)
        ensures
            r.table@.len() == 0,
            wf_table(r.table@),
    {
        Reactor { table: Vec::new() }
    }

    /// Add `fd` to the watch set under `token`.  The token must be fresh:
    /// the design leaves registration under a duplicate token undefined.
    pub fn register(&mut self, fd: i32, token: u64)
        requires
            wf_table(old(self).table@),
            !registered(old(self).table@, token),
        ensures
            final(self).table@ == old(self).table@.push((Registration { fd: fd, token: token })),
            wf_table(final(self).table@),
            registered(final(self).table@, token),
    {
        self.table.push(Registration { fd, token });
        proof {
            let t = self.table@;
            assert(t[t.len() - 1].token == token);
        }
    }

    /// The descriptor registered under `token`, if any.
    pub fn lookup(&self, token: u64) -> (r: Option<i32>)
        ensures
            match r {
                Some(fd) => exists|i: int|
                    0 <= i < self.table@.len() && (#[trigger] self.table@[i]) == (Registration {
                        fd: fd,
                        token: token,
                    }),
                None => !registered(self.table@, token),
            },
    {
        let mut i: usize = 0;
        while i < self.table.len()
            invariant
                i <= self.table@.len(),
                forall|j: int| 0 <= j < i ==> (#[trigger] self.table@[j]).token != token,
            decreases self.table@.len() - i,
        {
            let row = self.table[i];
            if row.token == token {
                return Some(row.fd);
            }
            i = i + 1;
        }
        None
    }

    /// Which of the tokens the multiplexer reported are registered, in
    /// order.  One callback fires per returned token; unknown tokens are
    /// silently ignored.
    pub fn fire_list(&self, events: &Vec<u64>) -> (r: Vec<u64>)
        ensures
            r@ == fired(self.table@, events@),
    {
        let mut out: Vec<u64> = Vec::new();
        let mut i: usize = 0;
        proof {
            assert(events@.subrange(0, 0) =~= Seq::<u64>::empty());
        }
        while i < events.len()
            invariant
                i <= events@.len(),
                out@ == fired(self.table@, events@.subrange(0, i as int)),
            decreases events@.len() - i,
        {
            let tok = events[i];
            let hit = self.lookup(tok);
            proof {
                let pre = events@.subrange(0, i as int);
                let ext = events@.subrange(0, i + 1);
                assert(ext.drop_last() =~= pre);
                assert(ext.last() == tok);
            }
            match hit {
                Some(_) => {
                    out.push(tok);
                    proof {
                        assert(registered(self.table@, tok));
                        assert(out@ =~= fired(self.table@, events@.subrange(0, i + 1)));
                    }
                },
                None => {
                    proof {
                        assert(out@ =~= fired(self.table@, events@.subrange(0, i + 1)));
                    }
                },
            }
            i = i + 1;
        }
        proof {
            assert(events@.subrange(0, events@.len() as int) =~= events@);
        }
        out
    }
}

} // verus!
