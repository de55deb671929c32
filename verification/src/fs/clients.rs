//! The file service's binding table: each bound client has a badge, its own
//! shared-buffer page and its own table of open files.
use vstd::prelude::*;

verus! {

/// Clients the service binds at once.
pub const MAX_CLIENTS: usize = 4;

/// Open files per client.
pub const MAX_FILES: usize = 4;

/// The newest protocol version the service speaks.
pub const PROTOCOL_VERSION: u64 = 2;

/// The first client's shared page; client `k` has the `k`-th page after it.
pub const SHARE_VA: usize = 0x0400_1000;

/// The frame capability of the first client's shared page.
pub const SHARE_SLOT: u64 = 61;

/// Bytes of one shared page.
pub const SHARE_BYTES: u64 = 0x1000;

/// A bound client.
pub struct Client<T> {
    pub badge: u64,
    pub files: Vec<Option<T>>,
}

/// A bound client, as the contracts see it.
pub struct ClientView<T> {
    pub badge: u64,
    pub files: Seq<Option<T>>,
}

/// The binding table.
pub struct Clients<T> {
    slots: Vec<Option<Client<T>>>,
}

/// The first index of `s` below `n` where `p` holds, if any.
pub open spec fn first_where<A>(s: Seq<A>, p: spec_fn(A) -> bool) -> Option<int> {
    if exists|i: int| 0 <= i < s.len() && p(#[trigger] s[i]) {
        Some(choose|i: int| 0 <= i < s.len() && p(#[trigger] s[i]) && forall|j: int| 0 <= j < i ==> !p(#[trigger] s[j]))
    } else {
        None
    }
}

/// An unused entry.
pub open spec fn is_free<A>() -> spec_fn(Option<A>) -> bool {
    |e: Option<A>| e is None
}

/// A client bound with `badge`.
pub open spec fn has_badge<T>(badge: u64) -> spec_fn(Option<ClientView<T>>) -> bool {
    |e: Option<ClientView<T>>| e matches Some(c) && c.badge == badge
}

/// An unbadged client is bound.
pub open spec fn anonymous_bound<T>(clients: Seq<Option<ClientView<T>>>) -> bool {
    exists|k: int| 0 <= k < clients.len() && #[trigger] has_badge(0)(clients[k])
}

/// The capability slot of client `k`'s shared frame.
pub open spec fn share_slot(k: int) -> int {
    SHARE_SLOT + k
}

/// The address of client `k`'s shared page.
pub open spec fn share_va(k: int) -> int {
    SHARE_VA + k * 0x1000
}

/// `i` is the first index of `s` where `p` holds.
pub open spec fn is_first<A>(s: Seq<A>, p: spec_fn(A) -> bool, i: int) -> bool {
    0 <= i < s.len() && p(s[i]) && forall|j: int| 0 <= j < i ==> !p(#[trigger] s[j])
}

proof fn lemma_first_where<A>(s: Seq<A>, p: spec_fn(A) -> bool, i: int)
    requires
        is_first(s, p, i),
    ensures
        first_where(s, p) == Some(i),
{
    assert(p(s[i]));
    let w = choose|w: int| 0 <= w < s.len() && p(#[trigger] s[w]) && forall|j: int| 0 <= j < w ==> !p(#[trigger] s[j]);
    if w < i {
        assert(!p(s[w]));
    } else if w > i {
        assert(!p(s[i]));
    }
}

/// Search for the first entry where `p` holds, knowing the test of each.
proof fn lemma_first_none<A>(s: Seq<A>, p: spec_fn(A) -> bool)
    requires
        forall|j: int| 0 <= j < s.len() ==> !p(#[trigger] s[j]),
    ensures
        first_where(s, p) is None,
{
}

impl<T> Client<T> {
    pub closed spec fn view(&self) -> ClientView<T> {
        ClientView { badge: self.badge, files: self.files@ }
    }
}

pub open spec fn client_view<T>(c: Option<Client<T>>) -> Option<ClientView<T>> {
    match c {
        Some(c) => Some(c.view()),
        None => None,
    }
}

impl<T> Clients<T> {
    /// The table: one entry per client slot.
    pub closed spec fn view(&self) -> Seq<Option<ClientView<T>>> {
        self.slots@.map_values(|c: Option<Client<T>>| client_view(c))
    }

    /// Every slot exists and every bound client has its full file table.
    pub closed spec fn wf(&self) -> bool {
        &&& self.slots@.len() == MAX_CLIENTS
        &&& forall|k: int| 0 <= k < MAX_CLIENTS ==> (#[trigger] self.slots@[k] matches Some(c) ==> c.files@.len() == MAX_FILES)
    }

    pub proof fn lemma_wf(&self)
        requires
            self.wf(),
        ensures
            self@.len() == MAX_CLIENTS,
            forall|k: int| 0 <= k < MAX_CLIENTS ==> (#[trigger] self@[k] matches Some(c) ==> c.files.len() == MAX_FILES),
    {
        assert forall|k: int| 0 <= k < MAX_CLIENTS implies (#[trigger] self@[k] matches Some(c) ==> c.files.len() == MAX_FILES) by {
            assert(self@[k] == client_view(self.slots@[k]));
        }
    }

    /// No client is bound.
    pub fn new() -> (t: Self)
        ensures
            t.wf(),
            forall|k: int| 0 <= k < MAX_CLIENTS ==> #[trigger] t@[k] is None,
            t@.len() == MAX_CLIENTS,
    {
        let mut slots: Vec<Option<Client<T>>> = Vec::new();
        let mut k: usize = 0;
        while k < MAX_CLIENTS
            invariant
                k <= MAX_CLIENTS,
                slots@.len() == k,
                forall|j: int| 0 <= j < k ==> #[trigger] slots@[j] is None,
            decreases MAX_CLIENTS - k,
        {
            slots.push(None);
            k = k + 1;
        }
        Clients { slots }
    }

    /// The slot a BIND of `version` from `badge` gets: refused for version
    /// 0 or one newer than the service's, when every slot is taken, and for
    /// a second unbadged client; otherwise the first free slot.
    pub fn bind_slot(&self, version: u64, badge: u64) -> (r: Result<usize, ()>)
        requires
            self.wf(),
        ensures
            ({
                let free = first_where(self@, is_free());
                let anonymous_taken = badge == 0 && anonymous_bound(self@);
                if version == 0 || version > PROTOCOL_VERSION || free is None || anonymous_taken {
                    r is Err
                } else {
                    r matches Ok(slot) && free == Some(slot as int)
                }
            }),
    {
        proof {
            self.lemma_wf();
        }
        if version == 0 || version > PROTOCOL_VERSION {
            return Err(());
        }
        let mut free: usize = 0;
        while free < self.slots.len() && self.slots[free].is_some()
            invariant
                self.wf(),
                self@.len() == MAX_CLIENTS,
                free <= MAX_CLIENTS,
                forall|j: int| 0 <= j < free ==> !is_free()(#[trigger] self@[j]),
            decreases MAX_CLIENTS - free,
        {
            proof {
                assert(self@[free as int] == client_view(self.slots@[free as int]));
            }
            free = free + 1;
        }
        if free == self.slots.len() {
            proof {
                lemma_first_none(self@, is_free());
            }
            return Err(());
        }
        proof {
            assert(self@[free as int] == client_view(self.slots@[free as int]));
            lemma_first_where(self@, is_free(), free as int);
        }
        if badge == 0 {
            let mut k: usize = 0;
            while k < self.slots.len()
                invariant
                    self.wf(),
                    badge == 0,
                    self@.len() == MAX_CLIENTS,
                    k <= MAX_CLIENTS,
                    forall|j: int| 0 <= j < k ==> !(#[trigger] has_badge::<T>(0)(self@[j])),
                decreases MAX_CLIENTS - k,
            {
                proof {
                    assert(self@[k as int] == client_view(self.slots@[k as int]));
                }
                match &self.slots[k] {
                    Some(c) => {
                        if c.badge == 0 {
                            proof {
                                assert(has_badge::<T>(0)(self@[k as int]));
                            }
                            return Err(());
                        }
                    },
                    None => {},
                }
                k = k + 1;
            }
        }
        Ok(free)
    }

    /// The BIND reply went out: the client with `badge` holds `slot`, with no
    /// open file.
    pub fn bind(&mut self, slot: usize, badge: u64)
        requires
            old(self).wf(),
            slot < MAX_CLIENTS,
        ensures
            final(self).wf(),
            final(self)@ == old(self)@.update(slot as int, Some(ClientView {
                badge,
                files: Seq::new(MAX_FILES as nat, |i: int| None::<T>),
            })),
    {
        let mut files: Vec<Option<T>> = Vec::new();
        let mut k: usize = 0;
        while k < MAX_FILES
            invariant
                k <= MAX_FILES,
                files@.len() == k,
                forall|j: int| 0 <= j < k ==> #[trigger] files@[j] is None,
            decreases MAX_FILES - k,
        {
            files.push(None);
            k = k + 1;
        }
        let ghost before = self.slots@;
        self.slots.remove(slot);
        self.slots.insert(slot, Some(Client { badge, files }));
        proof {
            assert(self.slots@ =~= before.update(slot as int, Some(Client { badge, files })));
            assert(files@ =~= Seq::new(MAX_FILES as nat, |i: int| None::<T>));
            assert(self@ =~= old(self)@.update(slot as int, Some(ClientView {
                badge,
                files: Seq::new(MAX_FILES as nat, |i: int| None::<T>),
            })));
        }
    }

    /// The first slot bound with `badge`.
    pub fn find(&self, badge: u64) -> (found: Option<usize>)
        requires
            self.wf(),
        ensures
            match found {
                Some(k) => first_where(self@, has_badge(badge)) == Some(k as int) && k < MAX_CLIENTS,
                None => first_where(self@, has_badge(badge)) is None,
            },
    {
        proof {
            self.lemma_wf();
        }
        let mut k: usize = 0;
        while k < self.slots.len()
            invariant
                self.wf(),
                self@.len() == MAX_CLIENTS,
                k <= MAX_CLIENTS,
                forall|j: int| 0 <= j < k ==> !(#[trigger] has_badge(badge)(self@[j])),
            decreases MAX_CLIENTS - k,
        {
            proof {
                assert(self@[k as int] == client_view(self.slots@[k as int]));
            }
            let hit = match &self.slots[k] {
                Some(c) => c.badge == badge,
                None => false,
            };
            if hit {
                proof {
                    lemma_first_where(self@, has_badge(badge), k as int);
                }
                return Some(k);
            }
            k = k + 1;
        }
        proof {
            lemma_first_none(self@, has_badge(badge));
        }
        None
    }

    /// Take the client at `slot` out of the table, for an edit of its files.
    fn take(&mut self, slot: usize) -> (c: Client<T>)
        requires
            old(self).wf(),
            slot < MAX_CLIENTS,
            old(self)@[slot as int] is Some,
        ensures
            final(self).slots@ == old(self).slots@.update(slot as int, None),
            Some(c.view()) == old(self)@[slot as int],
            c.files@.len() == MAX_FILES,
    {
        proof {
            self.lemma_wf();
            assert(self@[slot as int] == client_view(self.slots@[slot as int]));
        }
        let ghost before = self.slots@;
        let c = self.slots.remove(slot);
        self.slots.insert(slot, None);
        proof {
            assert(self.slots@ =~= before.update(slot as int, None));
        }
        match c {
            Some(c) => c,
            None => {
                proof {
                    assert(false);
                }
                Client { badge: 0, files: Vec::new() }
            },
        }
    }

    /// Put a client back at `slot`.
    fn put(&mut self, slot: usize, c: Client<T>)
        requires
            slot < MAX_CLIENTS,
            old(self).slots@.len() == MAX_CLIENTS,
            c.files@.len() == MAX_FILES,
            forall|k: int| 0 <= k < MAX_CLIENTS && k != slot ==> (#[trigger] old(self).slots@[k] matches Some(d) ==> d.files@.len() == MAX_FILES),
        ensures
            final(self).wf(),
            final(self).slots@ == old(self).slots@.update(slot as int, Some(c)),
            final(self)@ == old(self)@.update(slot as int, Some(c.view())),
    {
        let ghost before = self.slots@;
        self.slots.remove(slot);
        self.slots.insert(slot, Some(c));
        proof {
            assert(self.slots@ =~= before.update(slot as int, Some(c)));
            assert(self@ =~= old(self)@.update(slot as int, Some(c.view())));
        }
    }

    /// Store an opened file in the first free entry of the client at `slot`;
    /// `None`, and the file dropped, when all are in use.
    pub fn open(&mut self, slot: usize, file: T) -> (id: Option<usize>)
        requires
            old(self).wf(),
            slot < MAX_CLIENTS,
            old(self)@[slot as int] is Some,
        ensures
            final(self).wf(),
            ({
                let c = old(self)@[slot as int]->0;
                let free = first_where(c.files, is_free());
                match free {
                    Some(f) => id == Some(f as usize) && final(self)@ == old(self)@.update(slot as int, Some(ClientView {
                        badge: c.badge,
                        files: c.files.update(f, Some(file)),
                    })),
                    None => id is None && final(self)@ == old(self)@,
                }
            }),
    {
        let mut c = self.take(slot);
        let mut f: usize = 0;
        while f < MAX_FILES && c.files[f].is_some()
            invariant
                f <= MAX_FILES,
                c.files@.len() == MAX_FILES,
                forall|j: int| 0 <= j < f ==> !is_free()(#[trigger] c.files@[j]),
            decreases MAX_FILES - f,
        {
            f = f + 1;
        }
        if f == MAX_FILES {
            proof {
                lemma_first_none(c.files@, is_free());
            }
            self.put(slot, c);
            proof {
                assert(self@ =~= old(self)@);
            }
            return None;
        }
        proof {
            lemma_first_where(c.files@, is_free(), f as int);
        }
        let ghost files = c.files@;
        c.files.remove(f);
        c.files.insert(f, Some(file));
        proof {
            assert(c.files@ =~= files.update(f as int, Some(file)));
        }
        self.put(slot, c);
        Some(f)
    }

    /// Take open file `id` of the client at `slot` out for a read; `None`
    /// when no such file is open. `give_back` returns it.
    pub fn take_file(&mut self, slot: usize, id: u64) -> (file: Option<T>)
        requires
            old(self).wf(),
            slot < MAX_CLIENTS,
            old(self)@[slot as int] is Some,
        ensures
            final(self).wf(),
            ({
                let c = old(self)@[slot as int]->0;
                if id < MAX_FILES && c.files[id as int] is Some {
                    file == c.files[id as int] && final(self)@ == old(self)@.update(slot as int, Some(ClientView {
                        badge: c.badge,
                        files: c.files.update(id as int, None),
                    }))
                } else {
                    file is None && final(self)@ == old(self)@
                }
            }),
    {
        let mut c = self.take(slot);
        if id >= MAX_FILES as u64 || c.files[id as usize].is_none() {
            self.put(slot, c);
            proof {
                assert(self@ =~= old(self)@);
            }
            return None;
        }
        let i = id as usize;
        let ghost files = c.files@;
        let file = c.files.remove(i);
        c.files.insert(i, None);
        proof {
            assert(c.files@ =~= files.update(i as int, None));
        }
        self.put(slot, c);
        file
    }

    /// Return file `id` of the client at `slot` after a read.
    pub fn give_back(&mut self, slot: usize, id: usize, file: T)
        requires
            old(self).wf(),
            slot < MAX_CLIENTS,
            id < MAX_FILES,
            old(self)@[slot as int] is Some,
        ensures
            final(self).wf(),
            ({
                let c = old(self)@[slot as int]->0;
                final(self)@ == old(self)@.update(slot as int, Some(ClientView {
                    badge: c.badge,
                    files: c.files.update(id as int, Some(file)),
                }))
            }),
    {
        let mut c = self.take(slot);
        let ghost files = c.files@;
        c.files.remove(id);
        c.files.insert(id, Some(file));
        proof {
            assert(c.files@ =~= files.update(id as int, Some(file)));
        }
        self.put(slot, c);
    }

    /// CLOSE `id` for the client at `slot`: the entry is freed when it
    /// exists; any other id is ignored.
    pub fn close(&mut self, slot: usize, id: u64)
        requires
            old(self).wf(),
            slot < MAX_CLIENTS,
            old(self)@[slot as int] is Some,
        ensures
            final(self).wf(),
            ({
                let c = old(self)@[slot as int]->0;
                if id < MAX_FILES {
                    final(self)@ == old(self)@.update(slot as int, Some(ClientView {
                        badge: c.badge,
                        files: c.files.update(id as int, None),
                    }))
                } else {
                    final(self)@ == old(self)@
                }
            }),
    {
        let mut c = self.take(slot);
        if id < MAX_FILES as u64 {
            let i = id as usize;
            let ghost files = c.files@;
            c.files.remove(i);
            c.files.insert(i, None);
            proof {
                assert(c.files@ =~= files.update(i as int, None));
            }
        }
        self.put(slot, c);
        proof {
            if id >= MAX_FILES {
                assert(self@ =~= old(self)@);
            }
        }
    }
}

/// The capability of the shared frame granted to the client in `slot`.
pub fn share_slot_of(slot: usize) -> (s: u64)
    requires
        slot < MAX_CLIENTS,
    ensures
        s == share_slot(slot as int),
{
    SHARE_SLOT + slot as u64
}

/// The address of the shared page of the client in `slot`.
pub fn share_va_of(slot: usize) -> (va: usize)
    requires
        slot < MAX_CLIENTS,
    ensures
        va == share_va(slot as int),
{
    SHARE_VA + slot * 0x1000
}

} // verus!
