//! The per-recipient append-only store.
//!
//! Each recipient address owns an ordered log of messages, oldest first.
//! The store supports appending one message and reading one page of a log in
//! reverse chronological order, without ever editing or reordering what was
//! stored. Pagination is index-based: page `p` of size `s` holds the
//! elements of the reversed log from position `p * s` on, at most `s` of them.

use vstd::prelude::*;
use crate::state::Message;

verus! {

/// One recipient's inbox: the address it is keyed under and the ordered log
/// of messages deposited to it, oldest first.
pub struct InboxEntry {
    pub addr: String,
    pub msgs: Vec<Message>,
}

/// The message log that a list of inbox entries stores for `addr`: the first
/// entry keyed by `addr` wins, and an address without an entry has the empty
/// log.
pub open spec fn log_of(entries: Seq<InboxEntry>, addr: Seq<char>) -> Seq<Message>
    decreases entries.len(),
{
    if entries.len() == 0 {
        Seq::empty()
    } else if entries[0].addr@ == addr {
        entries[0].msgs@
    } else {
        log_of(entries.drop_first(), addr)
    }
}

/// Page `page` of size `size` of a log, most recent message first: the
/// elements of the reversed log from position `page * size` up to (but not
/// including) position `page * size + size`, clipped to the log's end.
pub open spec fn page_of(s: Seq<Message>, page: int, size: int) -> Seq<Message> {
    let start = page * size;
    let end = if start + size <= s.len() { start + size } else { s.len() as int };
    if 0 <= start && start < s.len() && 0 <= size {
        s.reverse().subrange(start, end)
    } else {
        Seq::empty()
    }
}

/// The per-recipient append-only store: one message log per recipient
/// address, reachable only through `append`, `read_page` and `length`.
pub struct Inboxes {
    entries: Vec<InboxEntry>,
}

impl Inboxes {
    /// Every stored log is short enough for its length to be reported as a
    /// `u32`.
    pub closed spec fn inv(self) -> bool {
        forall|i: int|
            0 <= i < self.entries@.len() ==> (#[trigger] self.entries@[i]).msgs@.len()
                <= u32::MAX
    }

    /// The message log stored for `addr`, oldest first.
    pub closed spec fn inbox(self, addr: Seq<char>) -> Seq<Message> {
        log_of(self.entries@, addr)
    }

    pub fn new() -> (r: Inboxes)
        ensures
            r.inv(),
            forall|a: Seq<char>| r.inbox(a) == Seq::<Message>::empty(),
    {
        let r = Inboxes { entries: Vec::new() };
        proof {
            assert forall|a: Seq<char>| r.inbox(a) == Seq::<Message>::empty() by {
                assert(r.entries@.len() == 0);
            }
        }
        r
    }

    /// Looks the address up; `Some(i)` names the entry whose log is the
    /// address's inbox, `None` means the address has never been written.
    fn find(&self, addr: &String) -> (r: Option<usize>)
        ensures
            match r {
                Some(i) => i < self.entries@.len() && self.entries@[i as int].addr@ == addr@
                    && self.inbox(addr@) == self.entries@[i as int].msgs@
                    && (forall|j: int|
                    0 <= j < i ==> (#[trigger] self.entries@[j]).addr@ != addr@),
                None => self.inbox(addr@) == Seq::<Message>::empty(),
            },
    {
        let n = self.entries.len();
        let mut i: usize = 0;
        proof {
            assert(self.entries@.skip(0) =~= self.entries@);
        }
        while i < n
            invariant
                n == self.entries@.len(),
                i <= n,
                log_of(self.entries@, addr@) == log_of(self.entries@.skip(i as int), addr@),
                forall|j: int| 0 <= j < i ==> (#[trigger] self.entries@[j]).addr@ != addr@,
            decreases n - i,
        {
            let ghost pre = self.entries@.skip(i as int);
            proof {
                assert(pre[0] == self.entries@[i as int]);
                assert(pre.drop_first() =~= self.entries@.skip(i as int + 1));
            }
            if self.entries[i].addr == *addr {
                return Some(i);
            }
            i = i + 1;
        }
        proof {
            assert(self.entries@.skip(n as int) =~= Seq::<InboxEntry>::empty());
        }
        None
    }

    /// Appends `m` at the tail of `addr`'s log and touches no other log.
    pub fn append(&mut self, addr: &String, m: Message)
        requires
            old(self).inv(),
            old(self).inbox(addr@).len() < u32::MAX,
        ensures
            final(self).inv(),
            final(self).inbox(addr@) == old(self).inbox(addr@).push(m),
            forall|b: Seq<char>| b != addr@ ==> final(self).inbox(b) == old(self).inbox(b),
    {
        let ghost pre = self.entries@;
        match self.find(addr) {
            Some(i) => {
                let mut e = self.entries.remove(i);
                e.msgs.push(m);
                self.entries.insert(i, e);
                proof {
                    let post = self.entries@;
                    assert(post =~= pre.update(i as int, post[i as int]));
                    lemma_log_first(pre, i as int, addr@);
                    lemma_log_first(post, i as int, addr@);
                    assert forall|b: Seq<char>| b != addr@ implies log_of(post, b) == log_of(
                        pre,
                        b,
                    ) by {
                        lemma_log_same(pre, post, b);
                    }
                }
            },
            None => {
                let entry = InboxEntry { addr: addr.clone(), msgs: vec![m] };
                self.entries.insert(0, entry);
                proof {
                    let post = self.entries@;
                    assert(post[0].addr@ == addr@);
                    assert(post[0].msgs@ =~= Seq::<Message>::empty().push(m));
                    assert(post.drop_first() =~= pre);
                }
            },
        }
    }

    /// The number of messages stored for `addr`, without materializing them.
    pub fn length(&self, addr: &String) -> (n: u32)
        requires
            self.inv(),
        ensures
            n == self.inbox(addr@).len(),
    {
        match self.find(addr) {
            Some(i) => self.entries[i].msgs.len() as u32,
            None => 0,
        }
    }

    /// Reads page `page` of size `page_size` of `addr`'s log, most recent
    /// first, together with the log's total length. An address that was
    /// never written yields the empty page and length zero rather than an
    /// error.
    pub fn read_page(&self, addr: &String, page: u32, page_size: u32) -> (r: (Vec<Message>, u32))
        requires
            self.inv(),
        ensures
            r.0@ == page_of(self.inbox(addr@), page as int, page_size as int),
            r.1 == self.inbox(addr@).len(),
            r.0@.len() <= page_size,
    {
        match self.find(addr) {
            None => (Vec::new(), 0),
            Some(i) => {
                let msgs = &self.entries[i].msgs;
                let n = msgs.len();
                let ghost log = self.inbox(addr@);
                proof {
                    assert((page as int) * (page_size as int) <= 0xffff_ffff * 0xffff_ffff)
                        by (nonlinear_arith)
                        requires
                            page as int <= 0xffff_ffff,
                            page_size as int <= 0xffff_ffff,
                    ;
                }
                let start64: u64 = (page as u64) * (page_size as u64);
                let mut out: Vec<Message> = Vec::new();
                if start64 >= n as u64 {
                    return (out, n as u32);
                }
                let start = start64 as usize;
                let mut k: usize = 0;
                proof {
                    assert(log.reverse().len() == log.len());
                }
                while k < page_size as usize && start + k < n
                    invariant
                        self.inv(),
                        n == msgs@.len(),
                        msgs@ == log,
                        n <= u32::MAX,
                        start == page as int * page_size as int,
                        start < n,
                        k <= page_size,
                        start + k <= n,
                        out@ =~= page_of(log, page as int, page_size as int).take(k as int),
                    decreases n - k,
                {
                    let idx = n - 1 - (start + k);
                    out.push(msgs[idx].clone());
                    proof {
                        assert(log.reverse()[start + k] == log[n - 1 - (start + k)]);
                    }
                    k = k + 1;
                }
                proof {
                    let p = page_of(log, page as int, page_size as int);
                    assert(out@ =~= p) by {
                        assert(p.len() == if start + page_size <= n {
                            page_size as int
                        } else {
                            n - start
                        });
                        assert(out@ =~= p.take(k as int));
                    }
                }
                (out, n as u32)
            },
        }
    }
}

/// The first `k` pages of a log under one page size, page 0 first,
/// concatenated in order.
pub open spec fn pages_concat(s: Seq<Message>, k: int, size: int) -> Seq<Message>
    decreases k,
{
    if k <= 0 {
        Seq::empty()
    } else {
        pages_concat(s, k - 1, size) + page_of(s, k - 1, size)
    }
}

/// A page never holds more than the requested page size.
pub proof fn lemma_page_len(s: Seq<Message>, page: int, size: int)
    requires
        0 <= page,
        0 <= size,
    ensures
        page_of(s, page, size).len() <= size,
{
    assert(page * size >= 0) by (nonlinear_arith)
        requires
            page >= 0,
            size >= 0,
    ;
}

/// The first `k` pages of a log are exactly the first `k * size` elements
/// of the reversed log, clipped to its length.
proof fn lemma_pages_prefix(s: Seq<Message>, k: int, size: int)
    requires
        0 <= k,
        1 <= size,
    ensures
        pages_concat(s, k, size) == s.reverse().take(
            if k * size <= s.len() {
                k * size
            } else {
                s.len() as int
            },
        ),
    decreases k,
{
    let rev = s.reverse();
    if k == 0 {
        assert(rev.take(0) =~= Seq::<Message>::empty());
    } else {
        lemma_pages_prefix(s, k - 1, size);
        let start = (k - 1) * size;
        assert(k * size == (k - 1) * size + size) by (nonlinear_arith);
        assert((k - 1) * size >= 0) by (nonlinear_arith)
            requires
                k >= 1,
                size >= 1,
        ;
        let m1 = if start <= s.len() {
            start
        } else {
            s.len() as int
        };
        let m = if k * size <= s.len() {
            k * size
        } else {
            s.len() as int
        };
        if start >= s.len() {
            assert(page_of(s, k - 1, size) =~= Seq::<Message>::empty());
            assert(rev.take(m1) + Seq::<Message>::empty() =~= rev.take(m));
        } else {
            assert(rev.take(start) + rev.subrange(start, m) =~= rev.take(m));
        }
    }
}

/// Concatenating pages 0 through `k - 1` of a static log reproduces the
/// whole log in reverse chronological order, with no duplicates and no
/// gaps, as soon as `k` pages cover the log's length.
pub proof fn lemma_pages_cover(s: Seq<Message>, k: int, size: int)
    requires
        0 <= k,
        1 <= size,
        s.len() <= k * size,
    ensures
        pages_concat(s, k, size) == s.reverse(),
{
    lemma_pages_prefix(s, k, size);
    assert(s.reverse().take(s.len() as int) =~= s.reverse());
}

/// A freshly appended message is element 0 of page 0 of the next read: the
/// newest message stands first in reverse chronological order.
pub proof fn lemma_new_message_first(s: Seq<Message>, m: Message, size: int)
    requires
        1 <= size,
    ensures
        page_of(s.push(m), 0, size).len() >= 1,
        page_of(s.push(m), 0, size)[0] == m,
{
    let t = s.push(m);
    assert(t.reverse()[0] == t[t.len() - 1]);
}

/// An inbox with zero deposits yields the empty page, whatever page and
/// size are asked for: absence of messages is not an error.
pub proof fn lemma_empty_inbox_page(page: int, size: int)
    ensures
        page_of(Seq::<Message>::empty(), page, size) == Seq::<Message>::empty(),
{
}

/// When the first entry keyed by `a` stands at position `i`, the stored log
/// for `a` is that entry's log.
proof fn lemma_log_first(e: Seq<InboxEntry>, i: int, a: Seq<char>)
    requires
        0 <= i < e.len(),
        e[i].addr@ == a,
        forall|j: int| 0 <= j < i ==> (#[trigger] e[j]).addr@ != a,
    ensures
        log_of(e, a) == e[i].msgs@,
    decreases i,
{
    if i > 0 {
        lemma_log_first(e.drop_first(), i - 1, a);
    }
}

/// Two entry lists with the same keys store the same log for `b` as long as
/// every entry keyed by `b` carries the same messages in both.
proof fn lemma_log_same(e1: Seq<InboxEntry>, e2: Seq<InboxEntry>, b: Seq<char>)
    requires
        e1.len() == e2.len(),
        forall|k: int| 0 <= k < e1.len() ==> (#[trigger] e2[k]).addr@ == e1[k].addr@,
        forall|k: int|
            0 <= k < e1.len() && (#[trigger] e1[k]).addr@ == b ==> e1[k].msgs@ == e2[k].msgs@,
    ensures
        log_of(e1, b) == log_of(e2, b),
    decreases e1.len(),
{
    if e1.len() > 0 && e1[0].addr@ != b {
        lemma_log_same(e1.drop_first(), e2.drop_first(), b);
    }
}

} // verus!
