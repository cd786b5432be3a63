//! Token tables remembered per file, so that repeated capability calls on an
//! unchanged file skip the lexer.

use vstd::prelude::*;
use vstd::std_specs::iter::IteratorSpec;

use crate::domain::{FileId, FileType};
use crate::file::{tokens_fit, with_texts, File};
use crate::lookup::{have_ends, lex_uncached, lexed, steps_fit, Lexeme};
use crate::outside::{
    content_digest, id_map_get, id_map_insert, id_map_keys, id_map_len, id_map_new, id_map_remove,
    xxh3_digest,
};
use crate::token::RawToken;

verus! {

/// The most files whose tokens are remembered at a time.
pub const LEX_CACHE_CAP: usize = 1024;

/// Token tables by file, each with the digest of the contents it was made from.
pub struct LexCache {
    entries: foldhash::HashMap<u64, (u64, Vec<RawToken>)>,
}

impl View for LexCache {
    type V = Map<FileId, (u64, Seq<RawToken>)>;

    closed spec fn view(&self) -> Map<FileId, (u64, Seq<RawToken>)> {
        Map::new(
            |id: FileId| self.entries@.dom().contains(id),
            |id: FileId| (self.entries@[id].0, self.entries@[id].1@),
        )
    }
}

/// The cache without the entries of the given files.
pub open spec fn without_files(
    cache: Map<FileId, (u64, Seq<RawToken>)>,
    ids: Seq<FileId>,
) -> Map<FileId, (u64, Seq<RawToken>)> {
    Map::new(|id: FileId| cache.dom().contains(id) && !ids.contains(id), |id: FileId| cache[id])
}

/// The tokens remembered for file `id` with contents of this digest, if any.
pub open spec fn remembered_as(
    cache: Map<FileId, (u64, Seq<RawToken>)>,
    id: FileId,
    digest: u64,
) -> Option<Seq<RawToken>> {
    if cache.dom().contains(id) && cache[id].0 == digest {
        Some(cache[id].1)
    } else {
        None
    }
}

/// The tokens remembered for file `id` with these `contents`, if any.
pub open spec fn remembered(
    cache: Map<FileId, (u64, Seq<RawToken>)>,
    id: FileId,
    contents: Seq<u8>,
) -> Option<Seq<RawToken>> {
    remembered_as(cache, id, xxh3_digest(contents))
}

/// `after` is `before` with `tokens` remembered for file `id` under `digest`.
/// Into a full cache nothing goes before some entry has left it.
pub open spec fn remembers_as(
    before: Map<FileId, (u64, Seq<RawToken>)>,
    after: Map<FileId, (u64, Seq<RawToken>)>,
    id: FileId,
    digest: u64,
    tokens: Seq<RawToken>,
) -> bool {
    if before.dom().len() < LEX_CACHE_CAP {
        after == before.insert(id, (digest, tokens))
    } else {
        exists|evicted: FileId| #[trigger]
            before.dom().contains(evicted) && after == before.remove(evicted).insert(
                id,
                (digest, tokens),
            )
    }
}

/// `after` is `before` with `tokens` remembered for file `id` with these
/// `contents`.
pub open spec fn remembers(
    before: Map<FileId, (u64, Seq<RawToken>)>,
    after: Map<FileId, (u64, Seq<RawToken>)>,
    id: FileId,
    contents: Seq<u8>,
    tokens: Seq<RawToken>,
) -> bool {
    remembers_as(before, after, id, xxh3_digest(contents), tokens)
}

impl LexCache {
    /// The cache holds finitely many entries, no more than [`LEX_CACHE_CAP`].
    pub open spec fn wf(self) -> bool {
        self@.dom().finite() && self@.dom().len() <= LEX_CACHE_CAP
    }

    proof fn lemma_same_keys(self)
        ensures
            self@.dom() == self.entries@.dom(),
    {
        assert(self@.dom() =~= self.entries@.dom());
    }

    pub fn new() -> (cache: LexCache)
        ensures
            cache.wf(),
            cache@ == Map::<FileId, (u64, Seq<RawToken>)>::empty(),
    {
        let cache = LexCache { entries: id_map_new() };
        proof {
            cache.lemma_same_keys();
            assert(cache@ =~= Map::<FileId, (u64, Seq<RawToken>)>::empty());
        }
        cache
    }

    /// The tokens remembered for file `id` under `digest`.
    pub fn entry_with_digest(&self, id: FileId, digest: u64) -> (tokens: Option<&Vec<RawToken>>)
        ensures
            remembered_as(self@, id, digest) == match tokens {
                Some(tokens) => Some(tokens@),
                None => None,
            },
    {
        match id_map_get(&self.entries, id) {
            Some(entry) => if entry.0 == digest {
                Some(&entry.1)
            } else {
                None
            },
            None => None,
        }
    }

    /// The tokens remembered for file `id`, unless its contents have changed
    /// since.
    pub fn cached_entry(&self, id: FileId, contents: &[u8]) -> (tokens: Option<&Vec<RawToken>>)
        ensures
            remembered(self@, id, contents@) == match tokens {
                Some(tokens) => Some(tokens@),
                None => None,
            },
    {
        self.entry_with_digest(id, content_digest(contents))
    }

    /// Remember `tokens` for file `id` under `digest`. A full cache first drops
    /// some entry.
    pub fn remember_with_digest(&mut self, id: FileId, digest: u64, tokens: Vec<RawToken>)
        requires
            old(self).wf(),
        ensures
            final(self).wf(),
            remembers_as(old(self)@, final(self)@, id, digest, tokens@),
            remembered_as(final(self)@, id, digest) == Some(tokens@),
    {
        let ghost before = self@;
        proof {
            self.lemma_same_keys();
        }
        if id_map_len(&self.entries) >= LEX_CACHE_CAP {
            let mut keys = id_map_keys(&self.entries);
            let ghost order = keys.remaining();
            if let Some(key) = keys.next() {
                let evicted: u64 = *key;
                proof {
                    assert(order.unref()[0] == evicted);
                    assert(before.dom().contains(evicted));
                }
                id_map_remove(&mut self.entries, evicted);
                assert(self@ =~= before.remove(evicted));
            } else {
                assert(order.unref() =~= Seq::empty());
                assert(before.dom() =~= Set::empty());
            }
        }
        let ghost middle = self@;
        id_map_insert(&mut self.entries, id, (digest, tokens));
        assert(self@ =~= middle.insert(id, (digest, tokens@)));
    }

    /// Remember `tokens` for file `id` with these `contents`. A full cache first
    /// drops some entry.
    pub fn remember(&mut self, id: FileId, contents: &[u8], tokens: Vec<RawToken>)
        requires
            old(self).wf(),
        ensures
            final(self).wf(),
            remembers(old(self)@, final(self)@, id, contents@, tokens@),
            remembered(final(self)@, id, contents@) == Some(tokens@),
    {
        self.remember_with_digest(id, content_digest(contents), tokens);
    }
}

// ---- Lexing through the cache --------------------------------------------

/// What one run of the lexer makes of a file: its tokens, or `None` when one of
/// them ends past what 32 bits can say.
pub open spec fn fresh_tokens(steps: Seq<Option<Lexeme>>) -> Option<Seq<RawToken>> {
    if steps_fit(steps) {
        Some(lexed(steps))
    } else {
        None
    }
}

/// Looking up file `id` with these `contents` gives `tokens` and leaves `after`,
/// where a run of the lexer would give `fresh`: what is remembered is handed out,
/// and what had to be lexed is remembered.
pub open spec fn looked_up(
    before: Map<FileId, (u64, Seq<RawToken>)>,
    after: Map<FileId, (u64, Seq<RawToken>)>,
    id: FileId,
    contents: Seq<u8>,
    fresh: Option<Seq<RawToken>>,
    tokens: Option<Seq<RawToken>>,
) -> bool {
    match (remembered(before, id, contents), fresh) {
        (Some(found), _) => tokens == Some(found) && after == before,
        (None, Some(made)) => tokens == fresh && remembers(before, after, id, contents, made),
        (None, None) => tokens is None && after == before,
    }
}

/// Looking up file `id` with these `contents` gives `tokens` and leaves `after`,
/// for some run of `lexer`.
pub open spec fn looked_up_with<F: Fn(&[u8]) -> Vec<Option<Lexeme>>>(
    before: Map<FileId, (u64, Seq<RawToken>)>,
    after: Map<FileId, (u64, Seq<RawToken>)>,
    id: FileId,
    contents: &[u8],
    lexer: F,
    tokens: Option<Seq<RawToken>>,
) -> bool {
    if remembered(before, id, contents@) is Some {
        looked_up(before, after, id, contents@, None, tokens)
    } else {
        exists|steps: Vec<Option<Lexeme>>| #[trigger]
            call_ensures(lexer, (contents,), steps) && looked_up(
                before,
                after,
                id,
                contents@,
                fresh_tokens(steps@),
                tokens,
            )
    }
}

fn copy_tokens(tokens: &Vec<RawToken>) -> (copy: Vec<RawToken>)
    ensures
        copy@ == tokens@,
{
    let mut copy: Vec<RawToken> = Vec::with_capacity(tokens.len());
    let mut i: usize = 0;
    while i < tokens.len()
        invariant
            i <= tokens@.len(),
            copy@ == tokens@.take(i as int),
        decreases tokens.len() - i,
    {
        copy.push(tokens[i]);
        assert(tokens@.take(i + 1) =~= tokens@.take(i as int).push(tokens@[i as int]));
        i += 1;
    }
    assert(tokens@.take(i as int) =~= tokens@);
    copy
}

impl LexCache {
    /// The tokens of file `id` with these `contents`. `lexer` runs only when they
    /// are not remembered. `None` when a token ends past what 32 bits can say.
    pub fn tokens_of<F: Fn(&[u8]) -> Vec<Option<Lexeme>>>(
        &mut self,
        id: FileId,
        contents: &[u8],
        lexer: F,
    ) -> (tokens: Option<Vec<RawToken>>)
        requires
            old(self).wf(),
            call_requires(lexer, (contents,)),
        ensures
            final(self).wf(),
            looked_up_with(
                old(self)@,
                final(self)@,
                id,
                contents,
                lexer,
                match tokens {
                    Some(tokens) => Some(tokens@),
                    None => None,
                },
            ),
    {
        let digest: u64 = content_digest(contents);
        if let Some(tokens) = self.entry_with_digest(id, digest) {
            return Some(copy_tokens(tokens));
        }
        let steps = lexer(contents);
        assert(call_ensures(lexer, (contents,), steps));
        if !have_ends(steps.as_slice()) {
            return None;
        }
        let tokens = lex_uncached(steps.as_slice());
        self.remember_with_digest(id, digest, copy_tokens(&tokens));
        Some(tokens)
    }
}

/// `file` is the file of these parts, if it is one that fits.
pub open spec fn file_of_parts(
    file: Option<File>,
    id: FileId,
    uri: Option<String>,
    file_type: FileType,
    contents: Vec<u8>,
    tokens: Option<Seq<RawToken>>,
) -> bool {
    let fits = contents@.len() <= u32::MAX && tokens is Some && tokens_fit(
        tokens->0,
        contents@.len(),
    );
    match file {
        Some(file) => fits && file.wf() && file.id == id && file.uri == uri && file.file_type
            == file_type && file.contents == contents && Some(file.tokens@) == tokens,
        None => !fits,
    }
}

impl LexCache {
    /// The file of these parts, with its tokens looked up as
    /// [`LexCache::tokens_of`] does. `None` when it is too long for 32-bit
    /// offsets, or its tokens do not fit it.
    pub fn lexed_file<F: Fn(&[u8]) -> Vec<Option<Lexeme>>>(
        &mut self,
        id: FileId,
        uri: Option<String>,
        file_type: FileType,
        contents: Vec<u8>,
        lexer: F,
    ) -> (file: Option<File>)
        requires
            old(self).wf(),
            forall|bytes: &[u8]| bytes@ == contents@ ==> #[trigger] call_requires(lexer, (bytes,)),
        ensures
            final(self).wf(),
            exists|bytes: &[u8], tokens: Option<Seq<RawToken>>|
                bytes@ == contents@ && #[trigger] looked_up_with(
                    old(self)@,
                    final(self)@,
                    id,
                    bytes,
                    lexer,
                    tokens,
                ) && file_of_parts(file, id, uri, file_type, contents, tokens),
    {
        let bytes: &[u8] = contents.as_slice();
        let ghost looked = bytes;
        match self.tokens_of(id, bytes, lexer) {
            Some(tokens) => {
                assert(looked_up_with(
                    old(self)@,
                    self@,
                    id,
                    looked,
                    lexer,
                    Some(tokens@),
                ));
                File::new(id, uri, file_type, contents, tokens)
            },
            None => None,
        }
    }
}

/// Drop remembered tokens for the given files.
///
/// Called when files change so the next lookup misses. The digest check also
/// catches stale entries, but eager invalidation prevents the cache from growing
/// with versions of the same file.
pub fn invalidate(cache: &mut LexCache, file_ids: &[FileId])
    requires
        old(cache).wf(),
    ensures
        final(cache).wf(),
        final(cache)@ == without_files(old(cache)@, file_ids@),
{
    let ghost before = cache@;
    let mut i: usize = 0;
    assert(without_files(before, file_ids@.take(0)) =~= before);
    while i < file_ids.len()
        invariant
            i <= file_ids@.len(),
            cache.wf(),
            cache@ == without_files(before, file_ids@.take(i as int)),
        decreases file_ids.len() - i,
    {
        let ghost middle = cache@;
        let id: u64 = file_ids[i];
        id_map_remove(&mut cache.entries, id);
        proof {
            assert(cache@ =~= middle.remove(id));
            let longer = file_ids@.take(i + 1);
            let shorter = file_ids@.take(i as int);
            assert(longer =~= shorter.push(id));
            assert forall|other: FileId| longer.contains(other) == (shorter.contains(other) || other
                == id) by {
                if shorter.contains(other) {
                    let k = choose|k: int| 0 <= k < shorter.len() && shorter[k] == other;
                    assert(longer[k] == other);
                }
                if other == id {
                    assert(longer[i as int] == other);
                }
                if longer.contains(other) && other != id {
                    let k = choose|k: int| 0 <= k < longer.len() && longer[k] == other;
                    assert(shorter[k] == other);
                }
            }
            assert(cache@ =~= without_files(before, longer));
        }
        i += 1;
    }
    assert(file_ids@.take(i as int) =~= file_ids@);
}

/// What was remembered for a file is found again for as long as its contents
/// stay, and a change that the digest shows hides it.
pub proof fn law_remembered_until_changed(
    before: Map<FileId, (u64, Seq<RawToken>)>,
    after: Map<FileId, (u64, Seq<RawToken>)>,
    id: FileId,
    contents: Seq<u8>,
    tokens: Seq<RawToken>,
    now: Seq<u8>,
)
    requires
        remembers(before, after, id, contents, tokens),
    ensures
        remembered(after, id, now) == if xxh3_digest(now) == xxh3_digest(contents) {
            Some(tokens)
        } else {
            None
        },
{
}

/// Remembering one file never changes what is found for another, unless the
/// cache was full and that other entry was the one to leave.
pub proof fn law_remembering_keeps_others(
    before: Map<FileId, (u64, Seq<RawToken>)>,
    after: Map<FileId, (u64, Seq<RawToken>)>,
    id: FileId,
    contents: Seq<u8>,
    tokens: Seq<RawToken>,
    other: FileId,
    other_contents: Seq<u8>,
)
    requires
        remembers(before, after, id, contents, tokens),
        other != id,
    ensures
        remembered(after, other, other_contents) == remembered(before, other, other_contents) || (
        before.dom().len() >= LEX_CACHE_CAP && remembered(after, other, other_contents) is None),
{
}

/// Nothing is found for an invalidated file, and every other file is untouched.
pub proof fn law_invalidated_is_forgotten(
    cache: Map<FileId, (u64, Seq<RawToken>)>,
    ids: Seq<FileId>,
    id: FileId,
    contents: Seq<u8>,
)
    ensures
        remembered(without_files(cache, ids), id, contents) == if ids.contains(id) {
            None
        } else {
            remembered(cache, id, contents)
        },
{
}

// ---- Cached and fresh ----------------------------------------------------

/// One use of the cache.
pub enum CacheStep {
    /// A lookup, and the tokens that came of it.
    LookedUp { id: FileId, contents: Seq<u8>, tokens: Option<Seq<RawToken>> },
    Invalidated { ids: Seq<FileId> },
}

/// `step` leads from `before` to `after`, over a lexer that makes `lexer(contents)`
/// of any `contents`.
pub open spec fn step_taken(
    before: Map<FileId, (u64, Seq<RawToken>)>,
    after: Map<FileId, (u64, Seq<RawToken>)>,
    step: CacheStep,
    lexer: spec_fn(Seq<u8>) -> Option<Seq<RawToken>>,
) -> bool {
    match step {
        CacheStep::LookedUp { id, contents, tokens } => looked_up(
            before,
            after,
            id,
            contents,
            lexer(contents),
            tokens,
        ),
        CacheStep::Invalidated { ids } => after == without_files(before, ids),
    }
}

/// `states` are what a cache that began empty held before and after each of
/// `steps`.
pub open spec fn cache_run(
    states: Seq<Map<FileId, (u64, Seq<RawToken>)>>,
    steps: Seq<CacheStep>,
    lexer: spec_fn(Seq<u8>) -> Option<Seq<RawToken>>,
) -> bool {
    &&& states.len() == steps.len() + 1
    &&& states[0] == Map::<FileId, (u64, Seq<RawToken>)>::empty()
    &&& forall|k: int|
        0 <= k < steps.len() ==> step_taken(states[k], states[k + 1], #[trigger] steps[k], lexer)
}

/// `step` looked up file `id` with these `contents`.
pub open spec fn looks_up(step: CacheStep, id: FileId, contents: Seq<u8>) -> bool {
    step matches CacheStep::LookedUp { id: file, contents: bytes, .. } && file == id && bytes
        == contents
}

/// No two contents that were looked up under one file share a digest.
pub open spec fn digests_tell_apart(steps: Seq<CacheStep>) -> bool {
    forall|i: int, j: int, id: FileId, one: Seq<u8>, other: Seq<u8>|
        0 <= i < steps.len() && 0 <= j < steps.len() && #[trigger] looks_up(steps[i], id, one)
            && #[trigger] looks_up(steps[j], id, other) && xxh3_digest(one) == xxh3_digest(other)
            ==> one == other
}

/// The entry is what the lexer makes of contents that one of the first `count`
/// steps looked up under file `id`.
spec fn made_before(
    steps: Seq<CacheStep>,
    count: int,
    lexer: spec_fn(Seq<u8>) -> Option<Seq<RawToken>>,
    id: FileId,
    entry: (u64, Seq<RawToken>),
) -> bool {
    exists|i: int, contents: Seq<u8>|
        0 <= i < count && #[trigger] looks_up(steps[i], id, contents) && entry.0 == xxh3_digest(
            contents,
        ) && lexer(contents) == Some(entry.1)
}

/// Every entry is what the lexer makes of contents looked up before.
proof fn lemma_entries_are_made(
    states: Seq<Map<FileId, (u64, Seq<RawToken>)>>,
    steps: Seq<CacheStep>,
    lexer: spec_fn(Seq<u8>) -> Option<Seq<RawToken>>,
    count: int,
)
    requires
        cache_run(states, steps, lexer),
        0 <= count <= steps.len(),
    ensures
        forall|id: FileId| #[trigger]
            states[count].dom().contains(id) ==> made_before(
                steps,
                count,
                lexer,
                id,
                states[count][id],
            ),
    decreases count,
{
    if count > 0 {
        lemma_entries_are_made(states, steps, lexer, count - 1);
        let before = states[count - 1];
        let after = states[count];
        let step = steps[count - 1];
        assert(step_taken(states[count - 1], states[count - 1 + 1], steps[count - 1], lexer));
        assert forall|id: FileId| #[trigger] after.dom().contains(id) implies made_before(
            steps,
            count,
            lexer,
            id,
            after[id],
        ) by {
            if before.dom().contains(id) && before[id] == after[id] {
                assert(made_before(steps, count - 1, lexer, id, before[id]));
                let (i, contents) = choose|i: int, contents: Seq<u8>|
                    0 <= i < count - 1 && #[trigger] looks_up(steps[i], id, contents)
                        && before[id].0 == xxh3_digest(contents) && lexer(contents) == Some(
                        before[id].1,
                    );
                assert(looks_up(steps[i], id, contents));
            } else {
                match step {
                    CacheStep::LookedUp { id: file, contents, tokens } => {
                        assert(file == id);
                        assert(looks_up(steps[count - 1], id, contents));
                    },
                    CacheStep::Invalidated { ids } => {},
                }
            }
        }
    }
}

/// Whatever was looked up or invalidated before, other versions of the file
/// among it, a lookup gives exactly what lexing the contents afresh would, so long
/// as no two contents looked up under one file share a digest.
pub proof fn law_cached_is_fresh(
    states: Seq<Map<FileId, (u64, Seq<RawToken>)>>,
    steps: Seq<CacheStep>,
    lexer: spec_fn(Seq<u8>) -> Option<Seq<RawToken>>,
    at: int,
)
    requires
        cache_run(states, steps, lexer),
        digests_tell_apart(steps),
        0 <= at < steps.len(),
    ensures
        steps[at] matches CacheStep::LookedUp { contents, tokens, .. } ==> tokens == lexer(
            contents,
        ),
{
    lemma_entries_are_made(states, steps, lexer, at);
    assert(step_taken(states[at], states[at + 1], steps[at], lexer));
    if let CacheStep::LookedUp { id, contents, tokens } = steps[at] {
        if remembered(states[at], id, contents) is Some {
            let entry = states[at][id];
            assert(states[at].dom().contains(id));
            assert(made_before(steps, at, lexer, id, entry));
            let (i, earlier) = choose|i: int, earlier: Seq<u8>|
                0 <= i < at && #[trigger] looks_up(steps[i], id, earlier) && entry.0 == xxh3_digest(
                    earlier,
                ) && lexer(earlier) == Some(entry.1);
            assert(looks_up(steps[at], id, contents));
            assert(earlier == contents);
        }
    }
}

/// So the tokens of a file, as [`crate::lookup::lex`] reads them off it, are those
/// that lexing its contents afresh gives, each with the stretch of the contents
/// that it covers.
pub proof fn law_file_is_freshly_lexed(
    states: Seq<Map<FileId, (u64, Seq<RawToken>)>>,
    steps: Seq<CacheStep>,
    lexer: spec_fn(Seq<u8>) -> Option<Seq<RawToken>>,
    at: int,
    file: File,
    tokens: Option<Seq<RawToken>>,
)
    requires
        cache_run(states, steps, lexer),
        digests_tell_apart(steps),
        0 <= at < steps.len(),
        steps[at] == (CacheStep::LookedUp { id: file.id, contents: file.contents@, tokens }),
        file_of_parts(Some(file), file.id, file.uri, file.file_type, file.contents, tokens),
    ensures
        lexer(file.contents@) is Some,
        file.token_seq() == with_texts(file.contents@, lexer(file.contents@)->0),
{
    law_cached_is_fresh(states, steps, lexer, at);
}

/// What [`LexCache::tokens_of`] does is a step of a [`cache_run`], whenever all
/// that `run` can make of the contents is what `lexer` says.
pub proof fn law_lookups_are_steps<F: Fn(&[u8]) -> Vec<Option<Lexeme>>>(
    before: Map<FileId, (u64, Seq<RawToken>)>,
    after: Map<FileId, (u64, Seq<RawToken>)>,
    id: FileId,
    contents: &[u8],
    run: F,
    lexer: spec_fn(Seq<u8>) -> Option<Seq<RawToken>>,
    tokens: Option<Seq<RawToken>>,
)
    requires
        looked_up_with(before, after, id, contents, run, tokens),
        forall|steps: Vec<Option<Lexeme>>| #[trigger]
            call_ensures(run, (contents,), steps) ==> fresh_tokens(steps@) == lexer(contents@),
    ensures
        step_taken(
            before,
            after,
            (CacheStep::LookedUp { id, contents: contents@, tokens }),
            lexer,
        ),
{
}

} // verus!
