//! The transfer state machine: one in-flight upload, reassembling an
//! out-of-order chunk stream into the in-order staged content.
//!
//! A chunk whose index is the next expected one is committed at once; any
//! other index is parked in an out-of-order buffer. Each commit then drains
//! the buffer of every now-contiguous chunk (the cascading commit). The
//! staged content lives here; the caller mirrors every committed byte run to
//! the staging file on disk ([`File::commit_run`] says which bytes) and
//! reports whether that append succeeded.

use vstd::prelude::*;
use std::collections::HashMap;
use crate::error::Error;

verus! {

broadcast use vstd::std_specs::hash::group_hash_axioms;

/// Write failures tolerated per transfer before it is purged.
pub const MAX_ATTEMPTS: u8 = 10;

/// Registration options for a transfer.
pub enum FileOpts {
    /// Keep the displaced destination under `<path><suffix>` instead of
    /// deleting it after a successful install.
    BackupExistingFile(String),
}

/// How a pre-existing destination file is displaced during install.
pub enum ReplaceStrategy {
    /// Rename it to `<path><suffix>` and keep it.
    Backup(String),
    /// Rename it aside, then delete it once the install succeeded.
    Unlink,
}

/// The option values (backup suffixes) named by a raw argument list: each
/// `OPT_BackupExistingFile` marker takes the following argument as its value;
/// a trailing marker without a value is dropped; anything else is ignored.
pub open spec fn spec_opt_values(args: Seq<Seq<char>>) -> Seq<Seq<char>>
    decreases args.len(),
{
    if args.len() == 0 {
        Seq::empty()
    } else if args[0] == "OPT_BackupExistingFile"@ {
        if args.len() == 1 {
            Seq::empty()
        } else {
            seq![args[1]] + spec_opt_values(args.skip(2))
        }
    } else {
        spec_opt_values(args.skip(1))
    }
}

/// The payload views of a parsed option list.
pub open spec fn opts_views(opts: Seq<FileOpts>) -> Seq<Seq<char>> {
    opts.map_values(|o: FileOpts| match o { FileOpts::BackupExistingFile(s) => s@ })
}

/// Parse the free-form argument tail of a registration request into options.
pub fn convert_opt_args(args: Vec<String>) -> (r: Vec<FileOpts>)
    ensures
        opts_views(r@) == spec_opt_values(crate::msg::frame_views(args@)),
{
    let ghost all = crate::msg::frame_views(args@);
    let mut opts: Vec<FileOpts> = Vec::new();
    let mut i: usize = 0;
    proof {
        assert(all.skip(0) =~= all);
        assert(opts_views(opts@) + spec_opt_values(all) =~= spec_opt_values(all));
    }
    while i < args.len()
        invariant
            all == crate::msg::frame_views(args@),
            i <= args@.len(),
            all.len() == args@.len(),
            opts_views(opts@) + spec_opt_values(all.skip(i as int)) == spec_opt_values(all),
        decreases args@.len() - i,
    {
        let ghost rest = all.skip(i as int);
        let marker: String = "OPT_BackupExistingFile".to_owned();
        if args[i].eq(&marker) {
            if i + 1 < args.len() {
                let ghost before = opts_views(opts@);
                opts.push(FileOpts::BackupExistingFile(args[i + 1].clone()));
                proof {
                    assert(opts_views(opts@) =~= before + seq![all[i as int + 1]]);
                    assert(rest.skip(2) =~= all.skip(i + 2));
                    assert(spec_opt_values(rest) == seq![all[i as int + 1]]
                        + spec_opt_values(all.skip(i + 2)));
                }
                i = i + 2;
            } else {
                proof {
                    assert(rest.len() == 1);
                }
                i = i + 1;
            }
        } else {
            proof {
                assert(rest.skip(1) =~= all.skip(i + 1));
            }
            i = i + 1;
        }
    }
    proof {
        assert(all.skip(all.len() as int) =~= Seq::<Seq<char>>::empty());
        assert(opts_views(opts@) =~= opts_views(opts@) + spec_opt_values(all.skip(
            all.len() as int)));
    }
    opts
}

/// The spec-level replace strategy.
pub enum StrategyModel {
    Backup(Seq<char>),
    Unlink,
}

/// The model of a strategy value.
pub open spec fn strategy_view(s: ReplaceStrategy) -> StrategyModel {
    match s {
        ReplaceStrategy::Backup(suffix) => StrategyModel::Backup(suffix@),
        ReplaceStrategy::Unlink => StrategyModel::Unlink,
    }
}

/// The mathematical state of a transfer.
#[verifier::ext_equal]
pub struct TransferModel {
    /// Destination path: the transfer's key while in flight.
    pub path: Seq<char>,
    /// The staging file accumulating committed bytes.
    pub upload_path: Seq<char>,
    /// Whether the destination existed at registration.
    pub exists: bool,
    pub strategy: StrategyModel,
    /// The digest the staged content must reach.
    pub origin_hash: u64,
    /// The byte length the staged content must reach.
    pub size: nat,
    pub total: nat,
    /// The committed content, chunk `0` through chunk `committed - 1`.
    pub staged: Seq<u8>,
    pub committed: nat,
    /// Out-of-order payloads, by chunk index.
    pub buffered: Map<nat, Seq<u8>>,
    pub failed: nat,
}

/// The buffer as a mathematical map.
pub open spec fn buf_view(m: Map<u64, Vec<u8>>) -> Map<nat, Seq<u8>> {
    Map::new(
        |k: nat| k <= u64::MAX && m.contains_key(k as u64),
        |k: nat| m[k as u64]@,
    )
}

/// How many buffered chunks sit contiguously at `from`, below `total`.
pub open spec fn run_len(buf: Map<nat, Seq<u8>>, from: nat, total: nat) -> nat
    decreases total - from,
{
    if from < total && buf.contains_key(from) {
        1 + run_len(buf, from + 1, total)
    } else {
        0
    }
}

/// The bytes of that contiguous run, in index order.
pub open spec fn run_bytes(buf: Map<nat, Seq<u8>>, from: nat, total: nat) -> Seq<u8>
    decreases total - from,
{
    if from < total && buf.contains_key(from) {
        buf[from] + run_bytes(buf, from + 1, total)
    } else {
        Seq::empty()
    }
}

/// The buffer with that run drained.
pub open spec fn drop_run(buf: Map<nat, Seq<u8>>, from: nat, total: nat) -> Map<nat, Seq<u8>> {
    buf.remove_keys(Set::new(|k: nat| from <= k < from + run_len(buf, from, total)))
}

/// One `write` call as a state transition. An IO failure only counts against
/// the retry budget; a chunk at the next expected index is committed and the
/// buffer drained behind it; any other chunk is parked in the buffer, never
/// overwriting an index already present.
pub open spec fn spec_write(m: TransferModel, index: nat, chunk: Seq<u8>, io_ok: bool)
    -> TransferModel {
    if !io_ok {
        TransferModel { failed: if m.failed < 255 { m.failed + 1 } else { m.failed }, ..m }
    } else if index == m.committed && m.committed < m.total {
        TransferModel {
            staged: m.staged + chunk + run_bytes(m.buffered, index + 1, m.total),
            committed: m.committed + 1 + run_len(m.buffered, index + 1, m.total),
            buffered: drop_run(m.buffered, index + 1, m.total),
            ..m
        }
    } else {
        TransferModel {
            buffered: if m.buffered.contains_key(index) {
                m.buffered
            } else {
                m.buffered.insert(index, chunk)
            },
            ..m
        }
    }
}

/// One in-flight upload.
pub struct File {
    path: String,
    upload_path: String,
    exists: bool,
    replace_strategy: ReplaceStrategy,
    origin_hash: u64,
    size: u64,
    total_chunks: u64,
    staged: Vec<u8>,
    committed: u64,
    buffered: HashMap<u64, Vec<u8>>,
    failed_chunks: u8,
}

impl View for File {
    type V = TransferModel;

    closed spec fn view(&self) -> TransferModel {
        TransferModel {
            path: self.path@,
            upload_path: self.upload_path@,
            exists: self.exists,
            strategy: strategy_view(self.replace_strategy),
            origin_hash: self.origin_hash,
            size: self.size as nat,
            total: self.total_chunks as nat,
            staged: self.staged@,
            committed: self.committed as nat,
            buffered: buf_view(self.buffered@),
            failed: self.failed_chunks as nat,
        }
    }
}

impl File {
    /// The structural invariant: commits never pass `total`, and the buffer
    /// holds nothing at the next expected index (a cascade would have drained
    /// it).
    pub closed spec fn wf(&self) -> bool {
        &&& self@.committed <= self@.total
        &&& (self@.committed < self@.total ==> !self@.buffered.contains_key(self@.committed))
    }

    /// Start a transfer toward `path`. The caller has inspected the disk:
    /// whether `path` is a directory (which refuses the transfer), whether it
    /// exists at all, and a collision-free staging filename. Options pick the
    /// replace strategy; the last backup suffix wins, absent means unlink.
    pub fn new(
        path: &str,
        hash: u64,
        size: u64,
        total_chunks: u64,
        options: Vec<FileOpts>,
        path_is_dir: bool,
        dest_exists: bool,
        upload_path: String,
    ) -> (r: Result<File, Error>)
        ensures
            path_is_dir <==> r matches Err(Error::FileIsDirectory),
            match r {
                Err(e) => e == Error::FileIsDirectory,
                Ok(f) => {
                    &&& f.wf()
                    &&& f@.path == path@
                    &&& f@.upload_path == upload_path@
                    &&& f@.exists == dest_exists
                    &&& f@.origin_hash == hash
                    &&& f@.size == size as nat
                    &&& f@.total == total_chunks as nat
                    &&& f@.staged == Seq::<u8>::empty()
                    &&& f@.committed == 0
                    &&& f@.buffered == Map::<nat, Seq<u8>>::empty()
                    &&& f@.failed == 0
                    &&& match f@.strategy {
                        StrategyModel::Unlink => opts_views(options@).len() == 0,
                        StrategyModel::Backup(s) => opts_views(options@).len() > 0 && s
                            == opts_views(options@).last(),
                    }
                },
            },
    {
        if path_is_dir {
            return Err(Error::FileIsDirectory);
        }
        let mut replace_strategy = ReplaceStrategy::Unlink;
        let mut opts = options;
        let mut i: usize = 0;
        while i < opts.len()
            invariant
                i <= opts@.len(),
                match replace_strategy {
                    ReplaceStrategy::Unlink => opts_views(opts@.take(i as int)).len() == 0,
                    ReplaceStrategy::Backup(s) => opts_views(opts@.take(i as int)).len() > 0
                        && s@ == opts_views(opts@.take(i as int)).last(),
                },
            decreases opts@.len() - i,
        {
            let ghost prefix = opts@.take(i as int);
            match &opts[i] {
                FileOpts::BackupExistingFile(suffix) => {
                    replace_strategy = ReplaceStrategy::Backup(suffix.clone());
                },
            }
            proof {
                assert(opts@.take(i + 1) =~= prefix.push(opts@[i as int]));
                assert(opts_views(opts@.take(i + 1)) =~= opts_views(prefix).push(
                    match opts@[i as int] { FileOpts::BackupExistingFile(s) => s@ }));
            }
            i = i + 1;
        }
        proof {
            assert(opts@.take(opts@.len() as int) =~= opts@);
        }
        let file = File {
            path: path.to_owned(),
            upload_path,
            exists: dest_exists,
            replace_strategy,
            origin_hash: hash,
            size,
            total_chunks,
            staged: Vec::new(),
            committed: 0,
            buffered: HashMap::new(),
            failed_chunks: 0,
        };
        proof {
            assert(file@.buffered =~= Map::<nat, Seq<u8>>::empty());
        }
        Ok(file)
    }

    /// The destination path, the transfer's registry key.
    pub fn path(&self) -> (r: &String)
        ensures
            r@ == self@.path,
    {
        &self.path
    }

    /// The staging path the caller mirrors committed bytes to.
    pub fn upload_path(&self) -> (r: &String)
        ensures
            r@ == self@.upload_path,
    {
        &self.upload_path
    }

    pub fn total_chunks(&self) -> (r: u64)
        ensures
            r as nat == self@.total,
    {
        self.total_chunks
    }

    /// The declared byte length of the finished file.
    pub fn size(&self) -> (r: u64)
        ensures
            r as nat == self@.size,
    {
        self.size
    }

    /// The digest the sender declared at registration.
    pub fn origin_hash(&self) -> (r: u64)
        ensures
            r == self@.origin_hash,
    {
        self.origin_hash
    }

    /// Whether the destination existed when the transfer was registered.
    pub fn dest_exists(&self) -> (r: bool)
        ensures
            r == self@.exists,
    {
        self.exists
    }

    /// How the destination will be displaced during install.
    pub fn strategy(&self) -> (r: &ReplaceStrategy)
        ensures
            strategy_view(*r) == self@.strategy,
    {
        &self.replace_strategy
    }

    pub fn committed_count(&self) -> (r: u64)
        ensures
            r as nat == self@.committed,
    {
        self.committed
    }

    /// The committed content so far: chunks `0..committed` in index order.
    pub fn staged(&self) -> (r: &Vec<u8>)
        ensures
            r@ == self@.staged,
    {
        &self.staged
    }

    /// All chunks committed: nothing left to receive.
    pub fn is_finished(&self) -> (r: bool)
        ensures
            r == (self@.committed == self@.total),
    {
        self.committed == self.total_chunks
    }

    /// Whether the retry budget still has room.
    pub fn can_retry(&self) -> (r: bool)
        ensures
            r == (self@.failed < MAX_ATTEMPTS as nat),
    {
        self.failed_chunks < MAX_ATTEMPTS
    }

    /// The byte run a `write` of this chunk would flush to the staging file:
    /// the chunk itself followed by every now-contiguous buffered successor.
    /// `None` when the chunk is not the next expected one (it would only be
    /// parked in the buffer, touching no file).
    pub fn commit_run(&self, index: u64, chunk: &Vec<u8>) -> (r: Option<Vec<u8>>)
        ensures
            match r {
                Some(run) => index as nat == self@.committed && self@.committed < self@.total
                    && run@ == chunk@ + run_bytes(self@.buffered, index as nat + 1, self@.total),
                None => !(index as nat == self@.committed && self@.committed < self@.total),
            },
    {
        if !(index == self.committed && self.committed < self.total_chunks) {
            return None;
        }
        let ghost tgt = chunk@ + run_bytes(self@.buffered, index as nat + 1, self@.total);
        let mut run: Vec<u8> = Vec::new();
        append_copy(&mut run, chunk);
        let mut next: u64 = index + 1;
        proof {
            assert(run@ + run_bytes(self@.buffered, next as nat, self@.total) =~= tgt);
        }
        while next < self.total_chunks && self.buffered.contains_key(&next)
            invariant
                next as nat <= self@.total,
                self@.total == self.total_chunks as nat,
                run@ + run_bytes(self@.buffered, next as nat, self@.total) == tgt,
            decreases self@.total - next as nat,
        {
            match self.buffered.get(&next) {
                Some(bytes) => {
                    append_copy(&mut run, bytes);
                    proof {
                        assert(self@.buffered.contains_key(next as nat));
                        assert(self@.buffered[next as nat] == bytes@);
                        assert(run_bytes(self@.buffered, next as nat, self@.total) == bytes@
                            + run_bytes(self@.buffered, next as nat + 1, self@.total));
                        assert(run@ + run_bytes(self@.buffered, next as nat + 1, self@.total)
                            =~= tgt);
                    }
                },
                None => {
                    proof {
                        assert(false);
                    }
                },
            }
            next = next + 1;
        }
        proof {
            assert(run_bytes(self@.buffered, next as nat, self@.total)
                =~= Seq::<u8>::empty());
            assert(run@ =~= tgt);
        }
        Some(run)
    }

    /// Take delivery of one chunk. `io_ok` reports whether the caller managed
    /// to flush this call's [`commit_run`] bytes to the staging file (`true`
    /// when nothing had to be flushed). A failed flush only spends one unit
    /// of the retry budget: the caller must retry this exact index. A chunk
    /// at the next expected index is committed and the buffer drained behind
    /// it; any other chunk is parked, never overwriting a buffered index.
    pub fn write(&mut self, index: u64, chunk: Vec<u8>, io_ok: bool) -> (r: Result<(), Error>)
        requires
            old(self).wf(),
        ensures
            final(self).wf(),
            final(self)@ == spec_write(old(self)@, index as nat, chunk@, io_ok),
            r == if io_ok { Ok::<(), Error>(()) } else { Err::<(), Error>(Error::Io) },
    {
        let ghost m0 = self@;
        if !io_ok {
            if self.failed_chunks < 255 {
                self.failed_chunks = self.failed_chunks + 1;
            }
            proof {
                assert(self@ =~= spec_write(m0, index as nat, chunk@, io_ok));
            }
            return Err(Error::Io);
        }
        if index == self.committed && index < self.total_chunks {
            let ghost buf0 = self@.buffered;
            let ghost total = self@.total;
            let ghost c0 = index as nat + 1;
            let ghost tgt_c = c0 + run_len(buf0, c0, total);
            let ghost tgt_staged = m0.staged + chunk@ + run_bytes(buf0, c0, total);
            let ghost tgt_buf = drop_run(buf0, c0, total);
            let mut incoming = chunk;
            self.staged.append(&mut incoming);
            self.committed = index + 1;
            proof {
                lemma_run_bound(buf0, c0, total);
                assert(self@.staged + run_bytes(self@.buffered, self@.committed, total)
                    =~= tgt_staged);
            }
            while self.committed < self.total_chunks && self.buffered.contains_key(
                &self.committed)
                invariant
                    self@.total == total,
                    self.total_chunks as nat == total,
                    self@.committed <= total,
                    self@.committed + run_len(self@.buffered, self@.committed, total) == tgt_c,
                    self@.staged + run_bytes(self@.buffered, self@.committed, total)
                        == tgt_staged,
                    drop_run(self@.buffered, self@.committed, total) == tgt_buf,
                    self@ == (TransferModel {
                        staged: self@.staged,
                        committed: self@.committed,
                        buffered: self@.buffered,
                        ..m0
                    }),
                decreases total - self@.committed,
            {
                let ghost buf_a = self@.buffered;
                let ghost c_a = self@.committed;
                match self.buffered.remove(&self.committed) {
                    Some(mut bytes) => {
                        proof {
                            assert(buf_a.contains_key(c_a));
                            assert(bytes@ == buf_a[c_a]);
                            lemma_buf_view_remove(self.buffered@, self.committed);
                            assert(self@.buffered =~= buf_a.remove(c_a));
                        }
                        self.staged.append(&mut bytes);
                        self.committed = self.committed + 1;
                        proof {
                            lemma_run_remove_below(buf_a, c_a, c_a + 1, total);
                            assert(run_len(buf_a, c_a, total) == 1 + run_len(buf_a, c_a + 1,
                                total));
                            assert(run_bytes(buf_a, c_a, total) == buf_a[c_a] + run_bytes(
                                buf_a, c_a + 1, total));
                            assert(self@.staged + run_bytes(self@.buffered, self@.committed,
                                total) =~= tgt_staged);
                            lemma_drop_run_step(buf_a, c_a, total);
                            assert(self@ =~= (TransferModel {
                                staged: self@.staged,
                                committed: self@.committed,
                                buffered: self@.buffered,
                                ..m0
                            }));
                        }
                    },
                    None => {
                        proof {
                            assert(false);
                        }
                    },
                }
            }
            proof {
                assert(run_len(self@.buffered, self@.committed, total) == 0);
                assert(run_bytes(self@.buffered, self@.committed, total)
                    =~= Seq::<u8>::empty());
                assert(self@.staged =~= tgt_staged);
                assert(drop_run(self@.buffered, self@.committed, total) =~= self@.buffered);
                assert(self@ =~= spec_write(m0, index as nat, chunk@, io_ok));
            }
        } else {
            if !self.buffered.contains_key(&index) {
                let ghost buf0 = self@.buffered;
                self.buffered.insert(index, chunk);
                proof {
                    lemma_buf_view_insert(old(self).buffered@, index, chunk);
                    assert(self@.buffered =~= buf0.insert(index as nat, chunk@));
                    assert(self@ =~= spec_write(m0, index as nat, chunk@, io_ok));
                }
            } else {
                proof {
                    assert(self@ =~= spec_write(m0, index as nat, chunk@, io_ok));
                }
            }
        }
        Ok(())
    }
}

/// Append a copy of `src` to `dst`.
fn append_copy(dst: &mut Vec<u8>, src: &Vec<u8>)
    ensures
        final(dst)@ == old(dst)@ + src@,
{
    let ghost orig = dst@;
    let mut j: usize = 0;
    while j < src.len()
        invariant
            j <= src@.len(),
            dst@ == orig + src@.take(j as int),
        decreases src@.len() - j,
    {
        dst.push(src[j]);
        proof {
            assert(src@.take(j + 1) =~= src@.take(j as int).push(src@[j as int]));
            assert(dst@ =~= orig + src@.take(j + 1));
        }
        j = j + 1;
    }
    proof {
        assert(src@.take(src@.len() as int) =~= src@);
    }
}

/// A run starting at `from` never inspects keys below `from`.
proof fn lemma_run_remove_below(buf: Map<nat, Seq<u8>>, k: nat, from: nat, total: nat)
    requires
        k < from,
    ensures
        run_len(buf.remove(k), from, total) == run_len(buf, from, total),
        run_bytes(buf.remove(k), from, total) == run_bytes(buf, from, total),
    decreases total - from,
{
    if from < total && buf.contains_key(from) {
        lemma_run_remove_below(buf, k, from + 1, total);
    }
}

/// A run below `total` stays below `total`.
proof fn lemma_run_bound(buf: Map<nat, Seq<u8>>, from: nat, total: nat)
    ensures
        from <= total ==> from + run_len(buf, from, total) <= total,
    decreases total - from,
{
    if from < total && buf.contains_key(from) {
        lemma_run_bound(buf, from + 1, total);
    }
}

/// Draining the head of a run and then dropping the rest drops the whole run.
proof fn lemma_drop_run_step(buf: Map<nat, Seq<u8>>, c: nat, total: nat)
    requires
        c < total,
        buf.contains_key(c),
    ensures
        drop_run(buf.remove(c), c + 1, total) == drop_run(buf, c, total),
{
    lemma_run_remove_below(buf, c, c + 1, total);
    assert(run_len(buf, c, total) == 1 + run_len(buf, c + 1, total));
    assert(drop_run(buf.remove(c), c + 1, total) =~= drop_run(buf, c, total));
}

/// The in-order concatenation of chunks `a` through `b - 1`.
pub open spec fn cat_range(chunks: Seq<Seq<u8>>, a: nat, b: nat) -> Seq<u8>
    decreases b - a,
{
    if a < b {
        chunks[a as int] + cat_range(chunks, a + 1, b)
    } else {
        Seq::empty()
    }
}

/// Deliver the chunks named by `order` to `m`, in that order, with every
/// flush succeeding.
pub open spec fn deliver_all(m: TransferModel, chunks: Seq<Seq<u8>>, order: Seq<int>)
    -> TransferModel
    decreases order.len(),
{
    if order.len() == 0 {
        m
    } else {
        deliver_all(
            spec_write(m, order[0] as nat, chunks[order[0]], true),
            chunks,
            order.drop_first(),
        )
    }
}

/// The reassembly invariant, with `d` the set of chunk indices delivered so
/// far: the committed prefix is exactly the contiguous delivered prefix, the
/// staged bytes are its in-order concatenation, and the buffer holds exactly
/// the delivered indices beyond it, each with its own payload.
spec fn coherent(m: TransferModel, chunks: Seq<Seq<u8>>, d: Set<int>) -> bool {
    &&& m.total == chunks.len()
    &&& m.committed <= m.total
    &&& (forall|i: int| 0 <= i < m.committed ==> d.contains(i))
    &&& (m.committed < m.total ==> !d.contains(m.committed as int))
    &&& m.staged == cat_range(chunks, 0, m.committed)
    &&& (forall|k: nat| #[trigger] m.buffered.contains_key(k) ==> m.committed <= k < m.total
        && d.contains(k as int) && m.buffered[k] == chunks[k as int])
    &&& (forall|k: int| m.committed <= k < m.total && #[trigger] d.contains(k)
        ==> m.buffered.contains_key(k as nat))
}

/// Everything inside a run is buffered, and the run stops at a gap.
proof fn lemma_run_props(buf: Map<nat, Seq<u8>>, from: nat, total: nat)
    ensures
        forall|j: nat| from <= j < from + run_len(buf, from, total) ==> #[trigger] buf
            .contains_key(j),
        from + run_len(buf, from, total) < total ==> !buf.contains_key(
            (from + run_len(buf, from, total)) as nat),
    decreases total - from,
{
    if from < total && buf.contains_key(from) {
        lemma_run_props(buf, from + 1, total);
        assert forall|j: nat| from <= j < from + run_len(buf, from, total) implies #[trigger]
            buf.contains_key(j) by {
            if j > from {
                assert(from + 1 <= j < from + 1 + run_len(buf, from + 1, total));
            }
        }
    }
}

/// When the buffer holds each index's own payload, a run's bytes are the
/// in-order concatenation of the chunks it covers.
proof fn lemma_run_bytes_cat(buf: Map<nat, Seq<u8>>, chunks: Seq<Seq<u8>>, from: nat, total: nat)
    requires
        total == chunks.len(),
        forall|k: nat| #[trigger] buf.contains_key(k) ==> k < total && buf[k]
            == chunks[k as int],
    ensures
        run_bytes(buf, from, total) == cat_range(chunks, from, from + run_len(buf, from, total)),
    decreases total - from,
{
    if from < total && buf.contains_key(from) {
        lemma_run_bytes_cat(buf, chunks, from + 1, total);
    } else {
        assert(cat_range(chunks, from, from) =~= Seq::<u8>::empty());
    }
}

/// Concatenation of adjacent chunk ranges.
proof fn lemma_cat_range_concat(chunks: Seq<Seq<u8>>, a: nat, b: nat, c: nat)
    requires
        a <= b <= c,
    ensures
        cat_range(chunks, a, c) == cat_range(chunks, a, b) + cat_range(chunks, b, c),
    decreases b - a,
{
    if a < b {
        lemma_cat_range_concat(chunks, a + 1, b, c);
        assert(cat_range(chunks, a, c) =~= cat_range(chunks, a, b) + cat_range(chunks, b, c));
    } else {
        assert(cat_range(chunks, a, c) =~= cat_range(chunks, a, b) + cat_range(chunks, b, c));
    }
}

/// The whole chunk range concatenated is `flatten`.
proof fn lemma_cat_range_is_flatten(chunks: Seq<Seq<u8>>, a: nat)
    requires
        a <= chunks.len(),
    ensures
        cat_range(chunks, a, chunks.len() as nat) == chunks.skip(a as int).flatten(),
    decreases chunks.len() - a,
{
    if a < chunks.len() {
        lemma_cat_range_is_flatten(chunks, a + 1);
        assert(chunks.skip(a as int).drop_first() =~= chunks.skip((a + 1) as int));
        assert(chunks.skip(a as int).first() == chunks[a as int]);
        assert(chunks.skip(a as int).flatten() == chunks[a as int] + chunks.skip((a + 1) as int)
            .flatten());
    } else {
        assert(chunks.skip(a as int) =~= Seq::<Seq<u8>>::empty());
        assert(Seq::<Seq<u8>>::empty().flatten() =~= Seq::<u8>::empty());
        assert(cat_range(chunks, a, chunks.len() as nat) =~= Seq::<u8>::empty());
    }
}

/// One successful delivery of a not-yet-delivered chunk keeps the transfer
/// coherent.
proof fn lemma_write_coherent(m: TransferModel, chunks: Seq<Seq<u8>>, d: Set<int>, index: nat)
    requires
        coherent(m, chunks, d),
        index < chunks.len(),
        !d.contains(index as int),
    ensures
        coherent(
            spec_write(m, index, chunks[index as int], true),
            chunks,
            d.insert(index as int),
        ),
{
    let m2 = spec_write(m, index, chunks[index as int], true);
    let d2 = d.insert(index as int);
    if index == m.committed && m.committed < m.total {
        let c = m.committed;
        let r = run_len(m.buffered, c + 1, m.total);
        let c2 = c + 1 + r;
        lemma_run_props(m.buffered, c + 1, m.total);
        lemma_run_bound(m.buffered, c + 1, m.total);
        lemma_run_bytes_cat(m.buffered, chunks, c + 1, m.total);
        assert(m2.committed == c2 && c2 <= m.total);
        // The staged content is the longer in-order prefix.
        assert(cat_range(chunks, c + 1, c + 1) =~= Seq::<u8>::empty());
        assert(cat_range(chunks, c, c + 1) =~= chunks[c as int] + Seq::<u8>::empty());
        lemma_cat_range_concat(chunks, 0, c, c + 1);
        lemma_cat_range_concat(chunks, 0, c + 1, c2);
        assert(m2.staged == cat_range(chunks, 0, c) + chunks[c as int] + cat_range(
            chunks, c + 1, c2));
        assert(m2.staged =~= cat_range(chunks, 0, c2));
        // Everything below the new commit point was delivered.
        assert forall|i: int| 0 <= i < c2 implies d2.contains(i) by {
            if i < c {
            } else if i == c {
            } else {
                assert(m.buffered.contains_key(i as nat));
            }
        }
        // The new commit point itself was not.
        if c2 < m.total {
            assert(!m.buffered.contains_key(c2 as nat));
            if d.contains(c2 as int) {
                assert(m.buffered.contains_key(c2 as nat));
            }
        }
        // The buffer is exactly the delivered indices beyond the run.
        assert forall|k: nat| #[trigger] m2.buffered.contains_key(k) implies c2 <= k < m.total
            && d2.contains(k as int) && m2.buffered[k] == chunks[k as int] by {
            assert(m.buffered.contains_key(k));
            assert(c <= k && !(c + 1 <= k < c2));
            assert(!m.buffered.contains_key(c));
        }
        assert forall|k: int| c2 <= k < m.total && #[trigger] d2.contains(k) implies m2
            .buffered.contains_key(k as nat) by {
            assert(d.contains(k));
            assert(m.buffered.contains_key(k as nat));
        }
    } else {
        // Not the next expected chunk. The whole prefix 0..committed is
        // delivered and this index is not, so it lies beyond the commit
        // point and is parked in the buffer.
        if m.committed == m.total {
            assert(d.contains(index as int));
        }
        assert(m.committed < m.total && index != m.committed);
        assert(index > m.committed);
        assert(!m.buffered.contains_key(index));
        assert(m2.buffered == m.buffered.insert(index, chunks[index as int]));
        assert forall|k: nat| #[trigger] m2.buffered.contains_key(k) implies m2.committed <= k
            < m2.total && d2.contains(k as int) && m2.buffered[k] == chunks[k as int] by {
            if k != index {
                assert(m.buffered.contains_key(k));
            }
        }
    }
}

/// Delivering a list of fresh, distinct indices extends the delivered set
/// and keeps the transfer coherent.
proof fn lemma_deliver_all_coherent(
    m: TransferModel,
    chunks: Seq<Seq<u8>>,
    order: Seq<int>,
    d: Set<int>,
)
    requires
        coherent(m, chunks, d),
        order.no_duplicates(),
        forall|i: int| 0 <= i < order.len() ==> 0 <= #[trigger] order[i] < chunks.len(),
        forall|i: int| 0 <= i < order.len() ==> !d.contains(#[trigger] order[i]),
    ensures
        coherent(deliver_all(m, chunks, order), chunks, d.union(order.to_set())),
    decreases order.len(),
{
    if order.len() == 0 {
        assert(d.union(order.to_set()) =~= d);
    } else {
        let index = order[0];
        let rest = order.drop_first();
        lemma_write_coherent(m, chunks, d, index as nat);
        let m1 = spec_write(m, index as nat, chunks[index], true);
        let d1 = d.insert(index);
        assert forall|i: int| 0 <= i < rest.len() implies !d1.contains(#[trigger] rest[i]) by {
            assert(rest[i] == order[i + 1]);
        }
        lemma_deliver_all_coherent(m1, chunks, rest, d1);
        assert forall|x: int| #[trigger] order.contains(x) implies x == index
            || rest.contains(x) by {
            let i = choose|i: int| 0 <= i < order.len() && order[i] == x;
            if i != 0 {
                assert(rest[i - 1] == x);
            }
        }
        assert forall|x: int| #[trigger] rest.contains(x) implies order.contains(x) by {
            let i = choose|i: int| 0 <= i < rest.len() && rest[i] == x;
            assert(order[i + 1] == x);
        }
        assert(order.contains(index)) by {
            assert(order[0] == index);
        }
        assert(d1.union(rest.to_set()) =~= d.union(order.to_set()));
    }
}

/// Order independence. A fresh transfer fed chunks `0` through `total - 1`,
/// each exactly once, in any order, with every flush succeeding, ends fully
/// committed with the staged content equal to the in-order concatenation of
/// the chunks; its digest therefore matches whatever the delivery order was.
pub proof fn lemma_order_independence(m: TransferModel, chunks: Seq<Seq<u8>>, order: Seq<int>)
    requires
        m.total == chunks.len(),
        m.committed == 0,
        m.staged == Seq::<u8>::empty(),
        m.buffered == Map::<nat, Seq<u8>>::empty(),
        order.len() == chunks.len(),
        order.no_duplicates(),
        forall|i: int| 0 <= i < order.len() ==> 0 <= #[trigger] order[i] < chunks.len(),
    ensures
        deliver_all(m, chunks, order).committed == m.total,
        deliver_all(m, chunks, order).staged == chunks.flatten(),
        crate::hash::sip_hash_of(deliver_all(m, chunks, order).staged)
            == crate::hash::sip_hash_of(chunks.flatten()),
{
    let n: int = chunks.len() as int;
    assert(coherent(m, chunks, Set::empty()));
    lemma_deliver_all_coherent(m, chunks, order, Set::empty());
    let mf = deliver_all(m, chunks, order);
    let df = Set::empty().union(order.to_set());
    // Every index below `total` was delivered: `order` is a permutation of
    // `0..total`, by counting.
    assert forall|x: int| 0 <= x < n implies df.contains(x) by {
        if !order.to_set().contains(x) {
            order.unique_seq_to_set();
            assert(order.to_set().subset_of(vstd::set_lib::set_int_range(0, n).remove(x)));
            vstd::set_lib::lemma_int_range(0, n);
            vstd::set_lib::lemma_len_subset(
                order.to_set(),
                vstd::set_lib::set_int_range(0, n).remove(x),
            );
            assert(vstd::set_lib::set_int_range(0, n).remove(x).len() == n - 1);
        }
    }
    if mf.committed < mf.total {
        assert(df.contains(mf.committed as int));
    }
    assert(mf.committed == m.total);
    lemma_cat_range_is_flatten(chunks, 0);
    assert(chunks.skip(0) =~= chunks);
}

/// Inserting a key into the buffer inserts it into the model.
proof fn lemma_buf_view_insert(m: Map<u64, Vec<u8>>, k: u64, v: Vec<u8>)
    ensures
        buf_view(m.insert(k, v)) == buf_view(m).insert(k as nat, v@),
{
    assert(buf_view(m.insert(k, v)) =~= buf_view(m).insert(k as nat, v@));
}

/// Removing a key from the buffer removes it from the model.
proof fn lemma_buf_view_remove(m: Map<u64, Vec<u8>>, k: u64)
    ensures
        buf_view(m.remove(k)) == buf_view(m).remove(k as nat),
{
    assert(buf_view(m.remove(k)) =~= buf_view(m).remove(k as nat));
}

} // verus!
