//! The content hash of a task: FNV-1a over a fixed byte layout shared with
//! the mobile client.

use vstd::prelude::*;
use vstd::utf8::encode_utf8;

use crate::dates::{date_iso, dt_iso_seconds, Date, DateTime};
use crate::model::recurrence::recurrence_text;
use crate::model::task::{keyword_of, priority_cookie, Task, TaskView};
use crate::text::decimal;

verus! {

pub const FNV_OFFSET: u64 = 0xcbf29ce484222325u64;

pub const FNV_PRIME: u64 = 0x100000001b3u64;

/// One FNV-1a step: xor the byte in, multiply by the prime (mod 2^64).
pub open spec fn fnv_step(h: u64, b: u8) -> u64 {
    vstd::wrapping::u64_specs::wrapping_mul(h ^ (b as u64), FNV_PRIME)
}

/// FNV-1a over `bs`, starting from `h`.
pub open spec fn fnv(h: u64, bs: Seq<u8>) -> u64
    decreases bs.len(),
{
    if bs.len() == 0 {
        h
    } else {
        fnv_step(fnv(h, bs.drop_last()), bs.last())
    }
}

pub proof fn lemma_fnv_concat(h: u64, a: Seq<u8>, b: Seq<u8>)
    ensures
        fnv(fnv(h, a), b) == fnv(h, a + b),
    decreases b.len(),
{
    if b.len() > 0 {
        lemma_fnv_concat(h, a, b.drop_last());
        assert((a + b).drop_last() =~= a + b.drop_last());
        assert((a + b).last() == b.last());
    } else {
        assert(a + b =~= a);
    }
}

/// A deterministic FNV-1a hasher.
pub struct StableHasher {
    pub hash: u64,
}

impl StableHasher {
    pub fn new() -> (r: StableHasher)
        ensures
            r.hash == FNV_OFFSET,
    {
        StableHasher { hash: FNV_OFFSET }
    }

    pub fn finish(&self) -> (r: u64)
        ensures
            r == self.hash,
    {
        self.hash
    }

    pub fn write(&mut self, bytes: &[u8])
        ensures
            final(self).hash == fnv(old(self).hash, bytes@),
    {
        let mut i: usize = 0;
        while i < bytes.len()
            invariant
                i <= bytes.len(),
                self.hash == fnv(old(self).hash, bytes@.take(i as int)),
            decreases bytes.len() - i,
        {
            let b = bytes[i];
            self.hash = (self.hash ^ (b as u64)).wrapping_mul(0x100000001b3u64);
            assert(bytes@.take(i + 1).drop_last() =~= bytes@.take(i as int));
            i = i + 1;
        }
        assert(bytes@.take(bytes.len() as int) =~= bytes@);
    }

    /// Writes the UTF-8 bytes of `s`.
    pub fn write_str(&mut self, s: &str)
        ensures
            final(self).hash == fnv(old(self).hash, encode_utf8(s@)),
    {
        self.write(s.as_bytes());
    }
}

/// A marker byte, then the text for a present value; a zero byte for none.
pub open spec fn opt_str_bytes(o: Option<Seq<char>>) -> Seq<u8> {
    match o {
        Some(s) => seq![1u8] + encode_utf8(s),
        None => seq![0u8],
    }
}

pub open spec fn opt_int_bytes(o: Option<u32>) -> Seq<u8> {
    match o {
        Some(v) => opt_str_bytes(Some(decimal(v as nat))),
        None => seq![0u8],
    }
}

/// The UTF-8 bytes of each text, one after the other.
pub open spec fn concat_bytes(ss: Seq<Seq<char>>) -> Seq<u8>
    decreases ss.len(),
{
    if ss.len() == 0 {
        seq![]
    } else {
        concat_bytes(ss.drop_last()) + encode_utf8(ss.last())
    }
}

pub open spec fn opt_date_text(d: Option<Date>) -> Option<Seq<char>> {
    match d {
        Some(x) => Some(date_iso(x)),
        None => None,
    }
}

pub open spec fn logbook_texts(es: Seq<DateTime>) -> Seq<Seq<char>> {
    es.map_values(|e: DateTime| dt_iso_seconds(e))
}

/// Start and end of each session, all in a row.
pub open spec fn clock_texts(cs: Seq<(DateTime, DateTime)>) -> Seq<Seq<char>>
    decreases cs.len(),
{
    if cs.len() == 0 {
        seq![]
    } else {
        clock_texts(cs.drop_last()) + seq![dt_iso_seconds(cs.last().0), dt_iso_seconds(cs.last().1)]
    }
}

/// The bytes hashed for a task, in order: title, state keyword, priority
/// cookie, contexts, scheduled, deadline, notes, project, waiting-for,
/// spoons, delegated, follow-up, repeater, extra tags, logbook times, clock
/// sessions, day plan date and budget, completion time. Texts are written
/// as their UTF-8 bytes; optional values with a marker byte.
pub open spec fn hash_bytes(t: TaskView) -> Seq<u8> {
    encode_utf8(t.title) + encode_utf8(keyword_of(t.state)) + opt_str_bytes(
        match t.priority {
            Some(p) => Some(priority_cookie(p)),
            None => None,
        },
    ) + concat_bytes(t.contexts) + opt_str_bytes(opt_date_text(t.scheduled)) + opt_str_bytes(
        opt_date_text(t.deadline),
    ) + encode_utf8(t.notes) + opt_str_bytes(t.project) + opt_str_bytes(t.waiting_for)
        + opt_int_bytes(t.esc) + opt_str_bytes(opt_date_text(t.delegated)) + opt_str_bytes(
        opt_date_text(t.follow_up),
    ) + opt_str_bytes(
        match t.recurrence {
            Some(r) => Some(recurrence_text(r)),
            None => None,
        },
    ) + concat_bytes(t.extra_tags) + concat_bytes(logbook_texts(t.logbook_entries))
        + concat_bytes(clock_texts(t.clock_entries)) + opt_str_bytes(opt_date_text(t.dayplan_date))
        + opt_int_bytes(t.dayplan_budget) + opt_str_bytes(
        match t.completed {
            Some(c) => Some(dt_iso_seconds(c)),
            None => None,
        },
    )
}

/// The content hash of a task.
pub open spec fn content_hash(t: TaskView) -> u64 {
    fnv(FNV_OFFSET, hash_bytes(t))
}

/// The sync data of a task (its href, baseline hash, UID and etag) is not
/// part of its content: setting it leaves the content hash unchanged.
pub proof fn lemma_hash_ignores_sync_data(
    t: TaskView,
    href: Option<Seq<char>>,
    hash: Option<u64>,
    uid: Option<Seq<char>>,
    etag: Option<Seq<char>>,
)
    ensures
        content_hash(TaskView { sync_href: href, sync_hash: hash, sync_uid: uid, sync_etag: etag, ..t })
            == content_hash(t),
{
    let u = TaskView { sync_href: href, sync_hash: hash, sync_uid: uid, sync_etag: etag, ..t };
    assert(hash_bytes(u) == hash_bytes(t));
}

/// Writes a marker byte and the text, or a zero byte.
pub fn write_optional_string(hasher: &mut StableHasher, s: Option<&str>)
    ensures
        final(hasher).hash == fnv(
            old(hasher).hash,
            opt_str_bytes(
                match s {
                    Some(x) => Some(x@),
                    None => None,
                },
            ),
        ),
{
    match s {
        Some(x) => {
            let ghost h0 = hasher.hash;
            let one: [u8; 1] = [1u8];
            hasher.write(&one);
            assert(one@ =~= seq![1u8]);
            let ghost h1 = hasher.hash;
            hasher.write_str(x);
            proof {
                lemma_fnv_concat(h0, seq![1u8], encode_utf8(x@));
            }
        },
        None => {
            let zero: [u8; 1] = [0u8];
            hasher.write(&zero);
            assert(zero@ =~= seq![0u8]);
        },
    }
}

/// Writes a marker byte and the decimal text of the number, or a zero byte.
pub fn write_optional_int(hasher: &mut StableHasher, v: Option<u32>)
    ensures
        final(hasher).hash == fnv(old(hasher).hash, opt_int_bytes(v)),
{
    match v {
        Some(x) => {
            let s = crate::text::decimal_string(x as u64);
            write_optional_string(hasher, Some(s.as_str()));
        },
        None => {
            write_optional_string(hasher, None);
        },
    }
}

fn write_all_strs(hasher: &mut StableHasher, ss: &Vec<String>)
    ensures
        final(hasher).hash == fnv(old(hasher).hash, concat_bytes(ss@.map_values(|s: String| s@))),
{
    let ghost sv = ss@.map_values(|s: String| s@);
    let ghost h0 = hasher.hash;
    let mut i: usize = 0;
    while i < ss.len()
        invariant
            i <= ss.len(),
            sv == ss@.map_values(|s: String| s@),
            hasher.hash == fnv(h0, concat_bytes(sv.take(i as int))),
        decreases ss.len() - i,
    {
        let ghost before = hasher.hash;
        hasher.write_str(ss[i].as_str());
        proof {
            assert(sv.take(i + 1).drop_last() =~= sv.take(i as int));
            assert(sv.take(i + 1).last() == ss@[i as int]@);
            lemma_fnv_concat(h0, concat_bytes(sv.take(i as int)), encode_utf8(ss@[i as int]@));
        }
        i = i + 1;
    }
    assert(sv.take(ss.len() as int) =~= sv);
}

fn write_times(hasher: &mut StableHasher, es: &Vec<DateTime>)
    ensures
        final(hasher).hash == fnv(old(hasher).hash, concat_bytes(logbook_texts(es@))),
{
    let ghost h0 = hasher.hash;
    let ghost lt = logbook_texts(es@);
    let mut i: usize = 0;
    while i < es.len()
        invariant
            i <= es.len(),
            lt == logbook_texts(es@),
            hasher.hash == fnv(h0, concat_bytes(lt.take(i as int))),
        decreases es.len() - i,
    {
        let s = es[i].to_iso_seconds_string();
        hasher.write_str(s.as_str());
        proof {
            assert(lt.take(i + 1).drop_last() =~= lt.take(i as int));
            assert(lt.take(i + 1).last() == dt_iso_seconds(es@[i as int]));
            lemma_fnv_concat(h0, concat_bytes(lt.take(i as int)), encode_utf8(s@));
        }
        i = i + 1;
    }
    assert(lt.take(es.len() as int) =~= lt);
}

fn write_clock(hasher: &mut StableHasher, cs: &Vec<(DateTime, DateTime)>)
    ensures
        final(hasher).hash == fnv(old(hasher).hash, concat_bytes(clock_texts(cs@))),
{
    let ghost h0 = hasher.hash;
    let mut i: usize = 0;
    assert(clock_texts(cs@.take(0)) =~= Seq::<Seq<char>>::empty());
    while i < cs.len()
        invariant
            i <= cs.len(),
            hasher.hash == fnv(h0, concat_bytes(clock_texts(cs@.take(i as int)))),
        decreases cs.len() - i,
    {
        let a = cs[i].0.to_iso_seconds_string();
        let b = cs[i].1.to_iso_seconds_string();
        let ghost prev = concat_bytes(clock_texts(cs@.take(i as int)));
        hasher.write_str(a.as_str());
        hasher.write_str(b.as_str());
        proof {
            let t = cs@.take(i + 1);
            assert(t.drop_last() =~= cs@.take(i as int));
            assert(t.last() == cs@[i as int]);
            let ct = clock_texts(t);
            assert(ct == clock_texts(cs@.take(i as int)) + seq![a@, b@]);
            let pre = clock_texts(cs@.take(i as int));
            assert((pre + seq![a@, b@]).drop_last() =~= pre + seq![a@]);
            assert((pre + seq![a@]).drop_last() =~= pre);
            assert(concat_bytes(ct) == concat_bytes(pre + seq![a@]) + encode_utf8(b@));
            assert(concat_bytes(pre + seq![a@]) == prev + encode_utf8(a@));
            lemma_fnv_concat(h0, prev, encode_utf8(a@));
            lemma_fnv_concat(h0, prev + encode_utf8(a@), encode_utf8(b@));
        }
        i = i + 1;
    }
    assert(cs@.take(cs.len() as int) =~= cs@);
}

fn opt_date_string(d: Option<Date>) -> (r: Option<String>)
    ensures
        match r {
            Some(x) => Some(x@),
            None => None,
        } == opt_date_text(d),
{
    match d {
        Some(x) => Some(x.to_iso_string()),
        None => None,
    }
}

fn write_opt_string(hasher: &mut StableHasher, s: &Option<String>)
    ensures
        final(hasher).hash == fnv(
            old(hasher).hash,
            opt_str_bytes(
                match s {
                    Some(x) => Some(x@),
                    None => None,
                },
            ),
        ),
{
    match s {
        Some(x) => write_optional_string(hasher, Some(x.as_str())),
        None => write_optional_string(hasher, None),
    }
}

/// The content hash of a task, for change detection.
pub fn task_content_hash(task: &Task) -> (r: u64)
    ensures
        r == content_hash(task@),
{
    let ghost t = task@;
    let mut h = StableHasher::new();
    let ghost mut acc: Seq<u8> = seq![];
    h.write_str(task.title.as_str());
    proof {
        acc = encode_utf8(t.title);
        assert(acc =~= seq![] + acc);
    }
    let ghost a0 = acc;
    h.write_str(task.state.as_keyword());
    proof {
        lemma_fnv_concat(FNV_OFFSET, acc, encode_utf8(keyword_of(t.state)));
        acc = acc + encode_utf8(keyword_of(t.state));
    }
    let pr = match task.priority {
        Some(p) => Some(p.as_org()),
        None => None,
    };
    write_optional_string(&mut h, pr);
    let ghost pb = opt_str_bytes(
        match t.priority {
            Some(p) => Some(priority_cookie(p)),
            None => None,
        },
    );
    proof {
        lemma_fnv_concat(FNV_OFFSET, acc, pb);
        acc = acc + pb;
    }
    write_all_strs(&mut h, &task.contexts);
    proof {
        lemma_fnv_concat(FNV_OFFSET, acc, concat_bytes(t.contexts));
        acc = acc + concat_bytes(t.contexts);
    }
    let sched = opt_date_string(task.scheduled);
    write_opt_string(&mut h, &sched);
    proof {
        lemma_fnv_concat(FNV_OFFSET, acc, opt_str_bytes(opt_date_text(t.scheduled)));
        acc = acc + opt_str_bytes(opt_date_text(t.scheduled));
    }
    let dl = opt_date_string(task.deadline);
    write_opt_string(&mut h, &dl);
    proof {
        lemma_fnv_concat(FNV_OFFSET, acc, opt_str_bytes(opt_date_text(t.deadline)));
        acc = acc + opt_str_bytes(opt_date_text(t.deadline));
    }
    h.write_str(task.notes.as_str());
    proof {
        lemma_fnv_concat(FNV_OFFSET, acc, encode_utf8(t.notes));
        acc = acc + encode_utf8(t.notes);
    }
    write_opt_string(&mut h, &task.project);
    proof {
        lemma_fnv_concat(FNV_OFFSET, acc, opt_str_bytes(t.project));
        acc = acc + opt_str_bytes(t.project);
    }
    write_opt_string(&mut h, &task.waiting_for);
    proof {
        lemma_fnv_concat(FNV_OFFSET, acc, opt_str_bytes(t.waiting_for));
        acc = acc + opt_str_bytes(t.waiting_for);
    }
    write_optional_int(&mut h, task.esc);
    proof {
        lemma_fnv_concat(FNV_OFFSET, acc, opt_int_bytes(t.esc));
        acc = acc + opt_int_bytes(t.esc);
    }
    let del = opt_date_string(task.delegated);
    write_opt_string(&mut h, &del);
    proof {
        lemma_fnv_concat(FNV_OFFSET, acc, opt_str_bytes(opt_date_text(t.delegated)));
        acc = acc + opt_str_bytes(opt_date_text(t.delegated));
    }
    let fu = opt_date_string(task.follow_up);
    write_opt_string(&mut h, &fu);
    proof {
        lemma_fnv_concat(FNV_OFFSET, acc, opt_str_bytes(opt_date_text(t.follow_up)));
        acc = acc + opt_str_bytes(opt_date_text(t.follow_up));
    }
    let rec = match task.recurrence {
        Some(r) => Some(r.to_string()),
        None => None,
    };
    write_opt_string(&mut h, &rec);
    let ghost rb = opt_str_bytes(
        match t.recurrence {
            Some(r) => Some(recurrence_text(r)),
            None => None,
        },
    );
    proof {
        lemma_fnv_concat(FNV_OFFSET, acc, rb);
        acc = acc + rb;
    }
    write_all_strs(&mut h, &task.extra_tags);
    proof {
        lemma_fnv_concat(FNV_OFFSET, acc, concat_bytes(t.extra_tags));
        acc = acc + concat_bytes(t.extra_tags);
    }
    write_times(&mut h, &task.logbook_entries);
    proof {
        lemma_fnv_concat(FNV_OFFSET, acc, concat_bytes(logbook_texts(t.logbook_entries)));
        acc = acc + concat_bytes(logbook_texts(t.logbook_entries));
    }
    write_clock(&mut h, &task.clock_entries);
    proof {
        lemma_fnv_concat(FNV_OFFSET, acc, concat_bytes(clock_texts(t.clock_entries)));
        acc = acc + concat_bytes(clock_texts(t.clock_entries));
    }
    let dp = opt_date_string(task.dayplan_date);
    write_opt_string(&mut h, &dp);
    proof {
        lemma_fnv_concat(FNV_OFFSET, acc, opt_str_bytes(opt_date_text(t.dayplan_date)));
        acc = acc + opt_str_bytes(opt_date_text(t.dayplan_date));
    }
    write_optional_int(&mut h, task.dayplan_budget);
    proof {
        lemma_fnv_concat(FNV_OFFSET, acc, opt_int_bytes(t.dayplan_budget));
        acc = acc + opt_int_bytes(t.dayplan_budget);
    }
    let comp = match task.completed {
        Some(c) => Some(c.to_iso_seconds_string()),
        None => None,
    };
    write_opt_string(&mut h, &comp);
    let ghost cb = opt_str_bytes(
        match t.completed {
            Some(c) => Some(dt_iso_seconds(c)),
            None => None,
        },
    );
    proof {
        lemma_fnv_concat(FNV_OFFSET, acc, cb);
        acc = acc + cb;
        assert(acc == hash_bytes(t));
    }
    h.finish()
}

} // verus!
