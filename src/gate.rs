//! Content gating: redacts a random few of an article's paragraph and
//! preformatted blocks behind single-use reveal tokens.
use vstd::prelude::*;
use rand::Rng;
use crate::error::{AppError, AppErrorType, error_with};
use crate::kv::{KvModel, kv_set};
use crate::session::{id, is_opaque_id};
use crate::tags::contains_str;
use crate::text::{dec, decimal, split_char, split_on, views};

verus! {

/// A block found in HTML, with the text that precedes it.
#[derive(Debug)]
pub struct Block {
    /// Text between the previous block (or the start) and this one.
    pub before: String,
    /// `p` or `pre`.
    pub tag: String,
    /// Text between the tags.
    pub content: String,
    /// The block as it stands in the document.
    pub whole: String,
}

/// (before, tag, content, whole) of a block.
pub open spec fn block_view(b: Block) -> (Seq<char>, Seq<char>, Seq<char>, Seq<char>) {
    (b.before@, b.tag@, b.content@, b.whole@)
}

pub open spec fn block_views(v: Seq<Block>) -> Seq<(Seq<char>, Seq<char>, Seq<char>, Seq<char>)> {
    v.map_values(|b: Block| block_view(b))
}

/// The blocks that the block pattern finds in `html`, in document order.
pub uninterp spec fn block_scan(html: Seq<char>) -> Seq<(Seq<char>, Seq<char>, Seq<char>, Seq<char>)>;

/// The document text up to the end of the last block.
pub open spec fn blocks_text(bs: Seq<(Seq<char>, Seq<char>, Seq<char>, Seq<char>)>) -> Seq<char>
    decreases bs.len(),
{
    if bs.len() == 0 {
        Seq::empty()
    } else {
        blocks_text(bs.drop_last()) + bs.last().0 + bs.last().3
    }
}

pub open spec fn is_block_tag(t: Seq<char>) -> bool {
    t == "p"@ || t == "pre"@
}

/// A block reads `<tag>content</close>` with non-empty content.
pub open spec fn block_ok(b: (Seq<char>, Seq<char>, Seq<char>, Seq<char>)) -> bool {
    &&& is_block_tag(b.1)
    &&& b.2.len() > 0
    &&& exists|c: Seq<char>|
        is_block_tag(c) && b.3 == "<"@ + b.1 + ">"@ + b.2 + "</"@ + c + ">"@
}

/// Relies on regex: `captures_iter` of `<(p|pre)>(.+?)</(p|pre)>` (with `.`
/// matching newlines) yields the successive non-overlapping matches, group 1
/// the opening tag and group 2 the content; the text between and after them
/// is cut at the match offsets.
#[verifier::external_body]
fn scan_blocks(html: &str) -> (r: (Vec<Block>, String))
    ensures
        block_views(r.0@) == block_scan(html@),
        html@ == blocks_text(block_views(r.0@)) + r.1@,
        forall|i: int| 0 <= i < r.0.len() ==> block_ok(#[trigger] block_view(r.0@[i])),
{
    let re = regex::Regex::new(r"(?sm)<(p|pre)>(.+?)</(p|pre)>").unwrap();
    let mut blocks = Vec::new();
    let mut last: usize = 0;
    for cap in re.captures_iter(html) {
        let m = cap.get(0).unwrap();
        let before = html[last..m.start()].to_string();
        let (tag, content) = (cap[1].to_string(), cap[2].to_string());
        blocks.push(Block { before, tag, content, whole: m.as_str().to_string() });
        last = m.end();
    }
    (blocks, html[last..].to_string())
}

/// Relies on rand: `thread_rng().gen_range(0..n)` returns a value in
/// `[0, n)`; it panics on an empty range, which `n > 0` rules out.
#[verifier::external_body]
fn random_below(n: usize) -> (r: usize)
    requires
        n > 0,
    ensures
        r < n,
{
    rand::thread_rng().gen_range(0..n)
}

/// How many of `n` blocks to redact.
pub open spec fn redact_count(n: int) -> int {
    if n <= 1 {
        0
    } else if n <= 4 {
        1
    } else if n <= 8 {
        2
    } else {
        3
    }
}

/// Seconds a redacted block stays revealable.
pub const PROTECTED_TTL: usize = 1200;

pub const KEY_PREFIX: &'static str = "protected_content:";

/// Keyed-store key of a redacted block.
pub open spec fn protected_key(id: Seq<char>) -> Seq<char> {
    KEY_PREFIX@ + id
}

pub const PLACEHOLDER_1: &'static str = "<div id=\"hcaptcha-";

pub const PLACEHOLDER_2: &'static str = "\" class=\"callout callout-info\"><div>你需要进行人机验证才能查看隐藏的内容(大约";

pub const PLACEHOLDER_3: &'static str = "字节)</div><div class=\"h-captcha\" data-sitekey=\"";

pub const PLACEHOLDER_4: &'static str = "\"  data-callback=\"get_procted_content_";

pub const PLACEHOLDER_5: &'static str = "\"></div></div>";

/// What stands in the document for a redacted block of `bytes` bytes.
pub open spec fn placeholder(id: Seq<char>, bytes: nat, site_key: Seq<char>) -> Seq<char> {
    PLACEHOLDER_1@ + id + PLACEHOLDER_2@ + dec(bytes) + PLACEHOLDER_3@ + site_key + PLACEHOLDER_4@
        + id + PLACEHOLDER_5@
}

/// Size of a text in UTF-8 bytes, as `str::len` reports it.
pub open spec fn byte_len(s: Seq<char>) -> usize {
    vstd::utf8::encode_utf8(s).len() as usize
}

/// The first `i` blocks as the reader sees them, with the text before each.
pub open spec fn rendered(
    bs: Seq<(Seq<char>, Seq<char>, Seq<char>, Seq<char>)>,
    ids: Seq<Seq<char>>,
    picks: Seq<usize>,
    site_key: Seq<char>,
    i: int,
) -> Seq<char>
    decreases i,
{
    if i <= 0 {
        Seq::empty()
    } else {
        let j = i - 1;
        rendered(bs, ids, picks, site_key, j) + bs[j].0 + if picks.contains(j as usize) {
            placeholder(ids[j], byte_len(bs[j].2) as nat, site_key)
        } else {
            bs[j].3
        }
    }
}

/// The redacted blocks as (id, tag, content), in the order they were picked.
pub open spec fn redacted(
    bs: Seq<(Seq<char>, Seq<char>, Seq<char>, Seq<char>)>,
    ids: Seq<Seq<char>>,
    picks: Seq<usize>,
) -> Seq<(Seq<char>, Seq<char>, Seq<char>)> {
    picks.map_values(|p: usize| (ids[p as int], bs[p as int].1, bs[p as int].2))
}

/// A redaction of blocks `bs`: the required number of distinct block
/// indices, each picked block with its own opaque id (the ids of other blocks
/// are unused).
pub open spec fn gate_ok(
    bs: Seq<(Seq<char>, Seq<char>, Seq<char>, Seq<char>)>,
    ids: Seq<Seq<char>>,
    picks: Seq<usize>,
) -> bool {
    &&& ids.len() == bs.len()
    &&& forall|q: int| 0 <= q < picks.len() ==> is_opaque_id(#[trigger] ids[picks[q] as int])
    &&& forall|a: int, b: int|
        #![trigger picks[a], picks[b]]
        0 <= a < picks.len() && 0 <= b < picks.len() && a != b ==> ids[picks[a] as int]
            != ids[picks[b] as int]
    &&& picks.len() == redact_count(bs.len() as int)
    &&& picks.no_duplicates()
    &&& forall|q: int| 0 <= q < picks.len() ==> #[trigger] picks[q] < bs.len()
}

/// A redacted block held for reveal.
#[derive(Debug)]
pub struct ProtectedContent {
    pub uuid: String,
    pub tag: String,
    pub content: String,
}

pub open spec fn unit_view(u: ProtectedContent) -> (Seq<char>, Seq<char>, Seq<char>) {
    (u.uuid@, u.tag@, u.content@)
}

pub open spec fn unit_views(v: Seq<ProtectedContent>) -> Seq<(Seq<char>, Seq<char>, Seq<char>)> {
    v.map_values(|u: ProtectedContent| unit_view(u))
}

/// Whether `i` is one of `idx`.
pub fn in_idx(idx: &[usize], i: usize) -> (r: bool)
    ensures
        r == idx@.contains(i),
{
    let mut k: usize = 0;
    while k < idx.len()
        invariant
            k <= idx@.len(),
            forall|j: int| 0 <= j < k ==> idx@[j] != i,
        decreases idx@.len() - k,
    {
        if idx[k] == i {
            return true;
        }
        k = k + 1;
    }
    false
}

/// Size of `s` in bytes.
pub fn word_count(s: &str) -> (r: usize)
    ensures
        r == byte_len(s@),
{
    s.len()
}

fn placeholder_text(id: &str, bytes: usize, site_key: &str) -> (r: String)
    ensures
        r@ == placeholder(id@, bytes as nat, site_key@),
{
    let mut out = PLACEHOLDER_1.to_string();
    out.append(id);
    out.append(PLACEHOLDER_2);
    let n = decimal(bytes as u64);
    out.append(n.as_str());
    out.append(PLACEHOLDER_3);
    out.append(site_key);
    out.append(PLACEHOLDER_4);
    out.append(id);
    out.append(PLACEHOLDER_5);
    out
}

/// The document with the picked blocks replaced by placeholders, and the
/// picked blocks to hold for reveal.
pub fn gate_blocks(
    blocks: &Vec<Block>,
    tail: &str,
    ids: &Vec<String>,
    picks: &Vec<usize>,
    site_key: &str,
) -> (r: (String, Vec<ProtectedContent>))
    requires
        ids.len() == blocks.len(),
        forall|q: int| 0 <= q < picks.len() ==> #[trigger] picks@[q] < blocks.len(),
    ensures
        r.0@ == rendered(block_views(blocks@), views(ids@), picks@, site_key@, blocks.len() as int)
            + tail@,
        unit_views(r.1@) == redacted(block_views(blocks@), views(ids@), picks@),
{
    let ghost bs = block_views(blocks@);
    let mut out = String::new();
    let mut i: usize = 0;
    while i < blocks.len()
        invariant
            i <= blocks.len(),
            ids.len() == blocks.len(),
            bs == block_views(blocks@),
            out@ == rendered(bs, views(ids@), picks@, site_key@, i as int),
        decreases blocks.len() - i,
    {
        let b = &blocks[i];
        out.append(b.before.as_str());
        if in_idx(picks.as_slice(), i) {
            let p = placeholder_text(ids[i].as_str(), word_count(b.content.as_str()), site_key);
            out.append(p.as_str());
        } else {
            out.append(b.whole.as_str());
        }
        i = i + 1;
    }
    out.append(tail);
    let mut units: Vec<ProtectedContent> = Vec::new();
    let mut q: usize = 0;
    while q < picks.len()
        invariant
            q <= picks.len(),
            ids.len() == blocks.len(),
            bs == block_views(blocks@),
            forall|k: int| 0 <= k < picks.len() ==> #[trigger] picks@[k] < blocks.len(),
            unit_views(units@) == redacted(bs, views(ids@), picks@.subrange(0, q as int)),
        decreases picks.len() - q,
    {
        let p = picks[q];
        let u = ProtectedContent {
            uuid: ids[p].clone(),
            tag: blocks[p].tag.clone(),
            content: blocks[p].content.clone(),
        };
        let ghost before = units@;
        units.push(u);
        proof {
            assert(picks@.subrange(0, q as int + 1) =~= picks@.subrange(0, q as int).push(p));
            assert(unit_views(units@) =~= unit_views(before).push(unit_view(u)));
            assert(redacted(bs, views(ids@), picks@.subrange(0, q as int + 1)) =~= redacted(
                bs,
                views(ids@),
                picks@.subrange(0, q as int),
            ).push(unit_view(u)));
        }
        q = q + 1;
    }
    assert(picks@.subrange(0, picks.len() as int) =~= picks@);
    (out, units)
}

/// The document text after the last block.
pub open spec fn scan_tail(html: Seq<char>) -> Seq<char> {
    html.subrange(blocks_text(block_scan(html)).len() as int, html.len() as int)
}

/// Redacts a random few of the `p` and `pre` blocks of `html`: none of 0 or 1
/// blocks, 1 of 2 to 4, 2 of 5 to 8, 3 of more. Each picked block gets its
/// own opaque id; the picked ones are replaced by a verification placeholder bound to
/// `site_key` and returned, in the order picked, to be held for reveal under
/// their ids. Everything else is kept verbatim.
pub fn protected_content(html: &str, site_key: &str) -> (r: (String, Vec<ProtectedContent>))
    ensures
        ({
            let bs = block_scan(html@);
            let n = bs.len() as int;
            &&& n <= 1 ==> r.0@ == html@ && r.1.len() == 0
            &&& n > 1 ==> exists|ids: Seq<Seq<char>>, picks: Seq<usize>|
                {
                    &&& gate_ok(bs, ids, picks)
                    &&& r.0@ == rendered(bs, ids, picks, site_key@, n) + scan_tail(html@)
                    &&& unit_views(r.1@) == redacted(bs, ids, picks)
                }
            &&& forall|a: int, b: int|
                0 <= a < r.1.len() && 0 <= b < r.1.len() && a != b ==> #[trigger] r.1@[a].uuid@
                    != #[trigger] r.1@[b].uuid@
        }),
{
    let (blocks, tail) = scan_blocks(html);
    let ghost bs = block_views(blocks@);
    proof {
        assert(html@.subrange(blocks_text(bs).len() as int, html@.len() as int) =~= tail@);
    }
    let n = blocks.len();
    let k: usize = if n <= 1 {
        0
    } else if n <= 4 {
        1
    } else if n <= 8 {
        2
    } else {
        3
    };
    if k == 0 {
        return (html.to_string(), Vec::new());
    }
    let mut remaining: Vec<usize> = Vec::new();
    let mut i: usize = 0;
    while i < n
        invariant
            i <= n,
            remaining.len() == i,
            forall|j: int| 0 <= j < i ==> remaining@[j] == j,
        decreases n - i,
    {
        remaining.push(i);
        i = i + 1;
    }
    let mut picks: Vec<usize> = Vec::new();
    while picks.len() < k
        invariant
            k <= n,
            picks.len() <= k,
            picks.len() + remaining.len() == n,
            picks@.no_duplicates(),
            forall|a: int, b: int|
                0 <= a < remaining.len() && 0 <= b < remaining.len() && a != b ==> remaining@[a]
                    != remaining@[b],
            forall|q: int| 0 <= q < picks.len() ==> #[trigger] picks@[q] < n,
            forall|q: int| 0 <= q < remaining.len() ==> #[trigger] remaining@[q] < n,
            forall|a: int, b: int|
                0 <= a < picks.len() && 0 <= b < remaining.len() ==> picks@[a] != remaining@[b],
        decreases k - picks.len(),
    {
        let j = random_below(remaining.len());
        let ghost rem = remaining@;
        let p = remaining.remove(j);
        assert(forall|a: int| 0 <= a < remaining.len() ==> remaining@[a] == if a < j {
            rem[a]
        } else {
            rem[a + 1]
        });
        picks.push(p);
    }
    let mut ids: Vec<String> = Vec::new();
    while ids.len() < n
        invariant
            ids.len() <= n,
        decreases n - ids.len(),
    {
        ids.push(String::new());
    }
    let mut taken: Vec<String> = Vec::new();
    let mut q: usize = 0;
    while q < k
        invariant
            k <= 3,
            k == picks.len(),
            q <= k,
            ids.len() == n,
            taken.len() == q,
            picks@.no_duplicates(),
            forall|j: int| 0 <= j < picks.len() ==> #[trigger] picks@[j] < n,
            forall|j: int| 0 <= j < q ==> ids@[picks@[j] as int]@ == #[trigger] taken@[j]@,
            forall|j: int| 0 <= j < q ==> is_opaque_id(#[trigger] taken@[j]@),
            views(taken@).no_duplicates(),
        decreases k - q,
    {
        let f = fresh_id(&taken);
        let p = picks[q];
        let ghost before = ids@;
        ids.set(p, f.clone());
        let ghost tb = taken@;
        taken.push(f);
        proof {
            assert(views(taken@) =~= views(tb).push(f@));
            assert forall|j: int| 0 <= j < q implies ids@[picks@[j] as int]@ == #[trigger] taken@[j]@ by {
                assert(picks@[j] != picks@[q as int]);
            }
        }
        q = q + 1;
    }
    let r = gate_blocks(&blocks, tail.as_str(), &ids, &picks, site_key);
    proof {
        let vi = views(ids@);
        assert forall|a: int| 0 <= a < picks@.len() implies is_opaque_id(#[trigger] vi[picks@[a] as int]) by {
            assert(vi[picks@[a] as int] == taken@[a]@);
        }
        assert forall|a: int, b: int|
            #![trigger picks@[a], picks@[b]]
            0 <= a < picks@.len() && 0 <= b < picks@.len() && a != b implies vi[picks@[a] as int]
                != vi[picks@[b] as int] by {
            assert(vi[picks@[a] as int] == taken@[a]@);
            assert(vi[picks@[b] as int] == taken@[b]@);
            assert(views(taken@)[a] == taken@[a]@);
            assert(views(taken@)[b] == taken@[b]@);
        }
        assert(gate_ok(bs, vi, picks@));
        assert(bs == block_views(blocks@));
        assert(unit_views(r.1@) == redacted(bs, vi, picks@));
        assert(unit_views(r.1@).len() == r.1@.len());
        assert(r.1@.len() == picks@.len());
        assert forall|a: int, b: int| 0 <= a < r.1.len() && 0 <= b < r.1.len() && a != b implies
            #[trigger] r.1@[a].uuid@ != #[trigger] r.1@[b].uuid@ by {
            assert(unit_views(r.1@)[a].0 == r.1@[a].uuid@);
            assert(unit_views(r.1@)[b].0 == r.1@[b].uuid@);
            assert(redacted(bs, vi, picks@)[a].0 == vi[picks@[a] as int]);
            assert(redacted(bs, vi, picks@)[b].0 == vi[picks@[b] as int]);
            assert(vi[picks@[a] as int] != vi[picks@[b] as int]);
        }
    }
    r
}

/// An opaque id that none of `taken` holds: a fresh random one, or, should
/// it repeat one of them, the same with its last digit changed.
fn fresh_id(taken: &Vec<String>) -> (r: String)
    requires
        taken.len() <= 2,
    ensures
        is_opaque_id(r@),
        !views(taken@).contains(r@),
{
    let f = id();
    if !contains_str(taken, &f) {
        return f;
    }
    proof {
        reveal_strlit("0");
        reveal_strlit("1");
        reveal_strlit("2");
    }
    let head = f.as_str().substring_char(0, 31);
    let mut c0 = head.to_string();
    c0.append("0");
    let mut c1 = head.to_string();
    c1.append("1");
    let mut c2 = head.to_string();
    c2.append("2");
    assert(c0@.len() == 32 && c0@[31] == '0');
    assert(c1@.len() == 32 && c1@[31] == '1');
    assert(c2@.len() == 32 && c2@[31] == '2');
    assert(is_opaque_id(c0@) && is_opaque_id(c1@) && is_opaque_id(c2@)) by {
        assert forall|i: int| 0 <= i < 31 implies c0@[i] == f@[i] && c1@[i] == f@[i] && c2@[i]
            == f@[i] by {}
    }
    if !contains_str(taken, &c0) {
        c0
    } else if !contains_str(taken, &c1) {
        c1
    } else {
        proof {
            if views(taken@).contains(c2@) {
                let v = views(taken@);
                let i0 = choose|i: int| 0 <= i < v.len() && v[i] == c0@;
                let i1 = choose|i: int| 0 <= i < v.len() && v[i] == c1@;
                let i2 = choose|i: int| 0 <= i < v.len() && v[i] == c2@;
                assert(false);
            }
        }
        c2
    }
}

/// Message when the reader failed human verification.
pub const VERIFICATION_FAILED: &'static str = "人机验证失败";

/// Message to show when a reveal found none of the presented tokens.
pub const NOTHING_TO_REVEAL: &'static str = "没有找到需要的内容，请刷新页面重试";

/// Keyed-store key of the redacted block with id `id`.
pub fn protected_key_of(id: &str) -> (r: String)
    ensures
        r@ == protected_key(id@),
{
    let mut k = KEY_PREFIX.to_string();
    k.append(id);
    k
}

/// Keys to read, and consume, for a comma-separated list of reveal tokens;
/// refused unless the reader passed human verification.
pub fn reveal_keys(verified: bool, ids: &str) -> (r: Result<Vec<String>, AppError>)
    ensures
        !verified ==> r is Err && r->Err_0@ == error_with(
            VERIFICATION_FAILED@,
            AppErrorType::Common,
        ),
        verified ==> r is Ok && views(r->Ok_0@) == split_on(ids@, ',').map_values(
            |id: Seq<char>| protected_key(id),
        ),
{
    if !verified {
        return Err(AppError::from_str(VERIFICATION_FAILED, AppErrorType::Common));
    }
    let pieces = split_char(ids, ',');
    let mut keys: Vec<String> = Vec::new();
    let mut i: usize = 0;
    while i < pieces.len()
        invariant
            i <= pieces.len(),
            views(keys@) == views(pieces@).subrange(0, i as int).map_values(
                |id: Seq<char>| protected_key(id),
            ),
        decreases pieces.len() - i,
    {
        let k = protected_key_of(pieces[i].as_str());
        let ghost before = keys@;
        keys.push(k);
        proof {
            assert(views(keys@) =~= views(before).push(k@));
            assert(views(pieces@).subrange(0, i as int + 1) =~= views(pieces@).subrange(
                0,
                i as int,
            ).push(pieces@[i as int]@));
        }
        i = i + 1;
    }
    assert(views(pieces@).subrange(0, pieces.len() as int) =~= views(pieces@));
    assert(views(keys@) =~= split_on(ids@, ',').map_values(|id: Seq<char>| protected_key(id)));
    Ok(keys)
}

/// Holds redacted blocks (id, tag, content) in the keyed store at time `now`.
pub open spec fn store_units(
    m: KvModel<(Seq<char>, Seq<char>, Seq<char>)>,
    units: Seq<(Seq<char>, Seq<char>, Seq<char>)>,
    now: int,
) -> KvModel<(Seq<char>, Seq<char>, Seq<char>)>
    decreases units.len(),
{
    if units.len() == 0 {
        m
    } else {
        let u = units.last();
        kv_set(
            store_units(m, units.drop_last(), now),
            protected_key(u.0),
            u,
            PROTECTED_TTL as int,
            now,
        )
    }
}

pub open spec fn unit_keys(units: Seq<(Seq<char>, Seq<char>, Seq<char>)>) -> Seq<Seq<char>> {
    units.map_values(|u: (Seq<char>, Seq<char>, Seq<char>)| protected_key(u.0))
}

pub proof fn lemma_stored(
    m: KvModel<(Seq<char>, Seq<char>, Seq<char>)>,
    units: Seq<(Seq<char>, Seq<char>, Seq<char>)>,
    now: int,
)
    requires
        unit_keys(units).no_duplicates(),
    ensures
        forall|q: int| 0 <= q < units.len() ==> {
            let m1 = store_units(m, units, now);
            &&& m1.contains_key(#[trigger] unit_keys(units)[q])
            &&& m1[unit_keys(units)[q]] == (units[q], now + PROTECTED_TTL)
        },
    decreases units.len(),
{
    if units.len() > 0 {
        let p = units.drop_last();
        assert(unit_keys(p) =~= unit_keys(units).drop_last());
        lemma_stored(m, p, now);
        assert forall|q: int| 0 <= q < units.len() implies {
            let m1 = store_units(m, units, now);
            &&& m1.contains_key(#[trigger] unit_keys(units)[q])
            &&& m1[unit_keys(units)[q]] == (units[q], now + PROTECTED_TTL)
        } by {
            if q < units.len() - 1 {
                assert(unit_keys(p)[q] == unit_keys(units)[q]);
                assert(unit_keys(units)[q] != unit_keys(units)[units.len() - 1]);
            }
        }
    }
}

} // verus!
