//! The knowledge base: articles without their front matter, the text that an
//! article gives for retrieval, and the order of article listings.
use vstd::prelude::*;
use vstd::string::{StrSliceExecFns, StringExecFns};
use crate::text::{concat2, str_chars, str_eq, trim, trim_bounds};

verus! {

/// Why a knowledge-base operation failed.
#[derive(Debug, Clone, PartialEq)]
pub enum KnowledgeError {
    /// The database failed (its message).
    Database(String),
    /// No article has this slug.
    NotFound(String),
    /// Semantic search failed (why).
    SemanticSearchError(String),
}

/// The message of a knowledge-base error, as its display shows it.
pub open spec fn knowledge_error_text(e: KnowledgeError) -> Seq<char> {
    match e {
        KnowledgeError::Database(m) => "Database error: "@ + m@,
        KnowledgeError::NotFound(s) => "Article not found: "@ + s@,
        KnowledgeError::SemanticSearchError(m) => "Semantic search unavailable: "@ + m@,
    }
}

impl KnowledgeError {
    /// The message shown for this error.
    pub fn message(&self) -> (r: String)
        ensures
            r@ == knowledge_error_text(*self),
    {
        match self {
            KnowledgeError::Database(m) => concat2("Database error: ", m.as_str()),
            KnowledgeError::NotFound(s) => concat2("Article not found: ", s.as_str()),
            KnowledgeError::SemanticSearchError(m) => concat2(
                "Semantic search unavailable: ",
                m.as_str(),
            ),
        }
    }
}

/// The filters of an article listing.
#[derive(Debug, Clone)]
pub struct ArticleFilter {
    pub difficulty: Option<String>,
    /// `newest`, `oldest`, `longest` or `shortest`.
    pub sort: Option<String>,
}

impl Default for ArticleFilter {
    fn default() -> (r: Self)
        ensures
            r.difficulty is None,
            r.sort is None,
    {
        ArticleFilter { difficulty: None, sort: None }
    }
}

/// Knowledge-base statistics.
#[derive(Debug, Clone)]
pub struct KnowledgeStats {
    pub total_articles: i64,
    pub total_reading_minutes: i64,
    pub category_count: i64,
    pub difficulty_breakdown: Vec<DifficultyCount>,
}

/// The number of articles of one difficulty.
#[derive(Debug, Clone)]
pub struct DifficultyCount {
    pub difficulty: Option<String>,
    pub count: Option<i64>,
}

/// Where `pat` first occurs in `s`, from position `i` on.
pub open spec fn find_from(s: Seq<char>, pat: Seq<char>, i: int) -> Option<int>
    decreases s.len() + 1 - i,
{
    if i < 0 || i + pat.len() > s.len() {
        None
    } else if s.subrange(i, i + pat.len()) == pat {
        Some(i)
    } else {
        find_from(s, pat, i + 1)
    }
}

/// The article text without its YAML front matter: the trimmed text, and
/// when it starts with `---` and has a second `---`, the trimmed text after
/// that second marker.
pub open spec fn without_frontmatter(content: Seq<char>) -> Seq<char> {
    let s = trim(content);
    if s.len() >= 3 && s.subrange(0, 3) == "---"@ {
        match find_from(s, "---"@, 3) {
            Some(k) => trim(s.subrange(k + 3, s.len() as int)),
            None => s,
        }
    } else {
        s
    }
}

fn is_dashes(v: &[char], i: usize) -> (b: bool)
    requires
        i + 3 <= v.len(),
    ensures
        b == (v@.subrange(i as int, i + 3) == "---"@),
{
    proof {
        reveal_strlit("---");
    }
    if v[i] == '-' && v[i + 1] == '-' && v[i + 2] == '-' {
        assert(v@.subrange(i as int, i + 3) =~= "---"@);
        true
    } else {
        assert(v@.subrange(i as int, i + 3) != "---"@) by {
            if v@.subrange(i as int, i + 3) == "---"@ {
                assert(v@.subrange(i as int, i + 3)[0] == v@[i as int]);
                assert(v@.subrange(i as int, i + 3)[1] == v@[i + 1]);
                assert(v@.subrange(i as int, i + 3)[2] == v@[i + 2]);
            }
        }
        false
    }
}

/// Removes the YAML front matter (`--- … ---`) from an article's text, and
/// the white space around what is left.
pub fn strip_frontmatter(content: &str) -> (r: &str)
    ensures
        r@ == without_frontmatter(content@),
{
    proof {
        reveal_strlit("---");
    }
    let v = str_chars(content);
    let (lo, hi) = trim_bounds(v.as_slice());
    let ghost s = v@.subrange(lo as int, hi as int);
    assert(s == trim(content@));
    proof {
        if hi - lo >= 3 {
            assert(s.subrange(0, 3) =~= v@.subrange(lo as int, lo + 3));
        }
    }
    if hi - lo >= 3 && is_dashes(v.as_slice(), lo) {
        assert(s.subrange(0, 3) =~= v@.subrange(lo as int, lo + 3));
        let mut k: usize = lo + 3;
        while k <= hi - 3
            invariant
                lo + 3 <= k <= hi,
                lo + 3 <= hi <= v.len(),
                v@ == content@,
                "---"@.len() == 3,
                s == trim(content@),
                s.len() >= 3 && s.subrange(0, 3) == "---"@,
                s == v@.subrange(lo as int, hi as int),
                find_from(s, "---"@, 3) == find_from(s, "---"@, k - lo),
            decreases hi - k,
        {
            assert(s.subrange(k - lo, k - lo + 3) =~= v@.subrange(k as int, k + 3));
            if is_dashes(v.as_slice(), k) {
                let (a, b) = trim_bounds(&v.as_slice()[k + 3..hi]);
                proof {
                    assert(v@.subrange(k + 3, hi as int) =~= s.subrange(k - lo + 3, s.len() as int));
                    assert(v@.subrange(k + 3, hi as int).subrange(a as int, b as int) =~= v@.subrange(
                        k + 3 + a,
                        k + 3 + b,
                    ));
                }
                return content.substring_char(k + 3 + a, k + 3 + b);
            }
            k += 1;
        }
        assert(find_from(s, "---"@, k - lo) is None);
    }
    content.substring_char(lo, hi)
}

/// What an article gives for retrieval: its title, slug, summary, text,
/// difficulty and related concepts.
#[derive(Debug, Clone)]
pub struct ArticleText {
    pub title: String,
    pub slug: String,
    pub summary: Option<String>,
    pub content: String,
    pub difficulty: Option<String>,
    pub related_concepts: Option<Vec<String>>,
}

/// The texts of an article's retrieval document.
#[derive(Debug, Clone)]
pub struct RagText {
    pub id: String,
    pub doc_type: String,
    pub content: String,
    pub title: String,
    pub url: String,
}

/// Texts joined with `, `.
pub open spec fn joined(ts: Seq<Seq<char>>) -> Seq<char>
    decreases ts.len(),
{
    if ts.len() == 0 {
        Seq::empty()
    } else if ts.len() == 1 {
        ts[0]
    } else {
        joined(ts.drop_last()) + ", "@ + ts.last()
    }
}

/// The text of a retrieval document.
pub open spec fn rag_content(a: ArticleText) -> Seq<char> {
    "Titlu: "@ + a.title@ + "\n\nRezumat: "@ + (match a.summary {
        Some(s) => s@,
        None => Seq::empty(),
    }) + "\n\nConținut: "@ + without_frontmatter(a.content@) + "\n\nDificultate: "@ + (match a.difficulty {
        Some(d) => d@,
        None => "general"@,
    }) + "\n\nConcepte: "@ + (match a.related_concepts {
        Some(cs) => joined(cs@.map_values(|c: String| c@)),
        None => Seq::empty(),
    })
}

fn join_concepts(cs: &Vec<String>) -> (r: String)
    ensures
        r@ == joined(cs@.map_values(|c: String| c@)),
{
    let ghost cv = cs@.map_values(|c: String| c@);
    let mut out = String::new();
    let mut i: usize = 0;
    assert(cv.subrange(0, 0) =~= Seq::<Seq<char>>::empty());
    while i < cs.len()
        invariant
            i <= cs.len(),
            cv == cs@.map_values(|c: String| c@),
            out@ == joined(cv.subrange(0, i as int)),
        decreases cs.len() - i,
    {
        let ghost next = cv.subrange(0, i + 1);
        proof {
            assert(next.drop_last() =~= cv.subrange(0, i as int));
            assert(next.last() == cs@[i as int]@);
        }
        if i > 0 {
            out.append(", ");
        }
        out.append(cs[i].as_str());
        proof {
            if i == 0 {
                assert(next =~= seq![cs@[0]@]);
                assert(out@ =~= joined(next));
            }
        }
        i += 1;
    }
    assert(cv.subrange(0, cs.len() as int) =~= cv);
    out
}

/// The retrieval document of an article: id `article:<slug>`, type
/// `article`, the article's title, its URL `/biblioteca/<slug>`, and its
/// text (see `rag_content`).
pub fn article_to_rag(a: &ArticleText) -> (r: RagText)
    ensures
        r.id@ == "article:"@ + a.slug@,
        r.doc_type@ == "article"@,
        r.content@ == rag_content(*a),
        r.title@ == a.title@,
        r.url@ == "/biblioteca/"@ + a.slug@,
{
    let mut content = concat2("Titlu: ", a.title.as_str());
    content.append("\n\nRezumat: ");
    match &a.summary {
        Some(s) => content.append(s.as_str()),
        None => {},
    }
    content.append("\n\nConținut: ");
    content.append(strip_frontmatter(a.content.as_str()));
    content.append("\n\nDificultate: ");
    match &a.difficulty {
        Some(d) => content.append(d.as_str()),
        None => content.append("general"),
    }
    content.append("\n\nConcepte: ");
    match &a.related_concepts {
        Some(cs) => {
            let j = join_concepts(cs);
            content.append(j.as_str());
        },
        None => {},
    }
    assert(content@ =~= rag_content(*a));
    RagText {
        id: concat2("article:", a.slug.as_str()),
        doc_type: String::from_str("article"),
        content,
        title: a.title.clone(),
        url: concat2("/biblioteca/", a.slug.as_str()),
    }
}

/// The `ORDER BY` of an article listing for a sort name.
pub open spec fn article_order_text(sort: Option<Seq<char>>) -> Seq<char> {
    if sort == Some("newest"@) {
        "published_at DESC NULLS LAST"@
    } else if sort == Some("oldest"@) {
        "published_at ASC NULLS LAST"@
    } else if sort == Some("longest"@) {
        "reading_time_minutes DESC NULLS LAST"@
    } else if sort == Some("shortest"@) {
        "reading_time_minutes ASC NULLS LAST"@
    } else {
        "category_path[1], published_at DESC"@
    }
}

/// The `ORDER BY` of an article listing (see `article_order_text`).
pub fn article_order(sort: Option<&str>) -> (r: &'static str)
    ensures
        r@ == article_order_text(crate::text::opt_str_view(sort)),
{
    match sort {
        Some(s) => if str_eq(s, "newest") {
            "published_at DESC NULLS LAST"
        } else if str_eq(s, "oldest") {
            "published_at ASC NULLS LAST"
        } else if str_eq(s, "longest") {
            "reading_time_minutes DESC NULLS LAST"
        } else if str_eq(s, "shortest") {
            "reading_time_minutes ASC NULLS LAST"
        } else {
            "category_path[1], published_at DESC"
        },
        None => "category_path[1], published_at DESC",
    }
}

} // verus!
