//! What Cloudflare answers, once decoded.

use crate::address::format::{decimal_text, push_decimal};
use crate::config::RecordType;
use vstd::prelude::*;
use vstd::string::StringExecFns;

verus! {

/// An error or a message of the provider: a number and a text.
#[derive(Debug)]
pub struct CodeMessagePair {
    pub code: u32,
    pub message: String,
}

/// The mathematical value of a `CodeMessagePair`.
pub struct CodeMessagePairView {
    pub code: u32,
    pub message: Seq<char>,
}

impl View for CodeMessagePair {
    type V = CodeMessagePairView;

    open spec fn view(&self) -> CodeMessagePairView {
        CodeMessagePairView { code: self.code, message: self.message@ }
    }
}

impl CodeMessagePairView {
    /// The pair in words: `Code`, the number, a colon and the text.
    pub open spec fn text(self) -> Seq<char> {
        "Code "@ + decimal_text(self.code as nat) + ": "@ + self.message
    }
}

/// The mathematical values of a list of pairs.
pub open spec fn pair_views(pairs: Seq<CodeMessagePair>) -> Seq<CodeMessagePairView> {
    Seq::new(pairs.len(), |i: int| pairs[i]@)
}

/// The pairs in words, each in square brackets, one after the other.
pub open spec fn pairs_text(pairs: Seq<CodeMessagePairView>) -> Seq<char>
    decreases pairs.len(),
{
    if pairs.len() == 0 {
        Seq::<char>::empty()
    } else {
        pairs_text(pairs.drop_last()) + "["@ + pairs.last().text() + "]"@
    }
}

impl CodeMessagePair {
    /// Returns the pair in words.
    pub fn text(&self) -> (text: String)
        ensures
            text@ == self@.text(),
    {
        let mut text = String::from_str("Code ");
        push_decimal(&mut text, self.code);
        text.append(": ");
        text.append(self.message.as_str());
        text
    }
}

impl Clone for CodeMessagePair {
    fn clone(&self) -> (r: Self)
        ensures
            r@ == self@,
    {
        CodeMessagePair { code: self.code, message: self.message.clone() }
    }
}

/// Returns a copy of the pairs.
pub fn clone_pairs(pairs: &Vec<CodeMessagePair>) -> (copy: Vec<CodeMessagePair>)
    ensures
        pair_views(copy@) == pair_views(pairs@),
{
    let mut copy: Vec<CodeMessagePair> = Vec::new();
    let mut i: usize = 0;
    while i < pairs.len()
        invariant
            i <= pairs.len(),
            copy.len() == i,
            forall|k: int| 0 <= k < i ==> (#[trigger] copy[k])@ == pairs[k]@,
        decreases pairs.len() - i,
    {
        copy.push(pairs[i].clone());
        i += 1;
    }
    proof {
        assert(pair_views(copy@) =~= pair_views(pairs@));
    }
    copy
}

/// Writes the pairs in words, each in square brackets, at the end of a text.
pub fn push_pairs_text(out: &mut String, pairs: &Vec<CodeMessagePair>)
    ensures
        final(out)@ == old(out)@ + pairs_text(pair_views(pairs@)),
{
    let ghost views = pair_views(pairs@);
    let mut i: usize = 0;
    proof {
        assert(views.take(0) =~= Seq::empty());
        assert(out@ + Seq::<char>::empty() =~= out@);
    }
    while i < pairs.len()
        invariant
            i <= pairs.len(),
            views == pair_views(pairs@),
            out@ == old(out)@ + pairs_text(views.take(i as int)),
        decreases pairs.len() - i,
    {
        let text = pairs[i].text();
        out.append("[");
        out.append(text.as_str());
        out.append("]");
        proof {
            assert(views.take(i + 1).drop_last() =~= views.take(i as int));
            assert(views.take(i + 1).last() == pairs[i as int]@);
            assert(out@ =~= old(out)@ + pairs_text(views.take(i + 1)));
        }
        i += 1;
    }
    proof {
        assert(views.take(pairs.len() as int) =~= views);
    }
}

/// How a record came to be.
#[derive(Debug)]
pub struct MetaInfo {
    pub auto_added: Option<bool>,
    pub source: Option<String>,
}

/// Where in the whole list of results an answer stands.
#[derive(Debug)]
pub struct ResultInfo {
    pub count: u32,
    pub page: u32,
    pub per_page: u32,
    pub total_count: u32,
}

/// One record as Cloudflare reports it.
#[derive(Debug)]
pub struct RecordDetail {
    /// The address, as text.
    pub content: String,
    /// The fully-qualified name.
    pub name: String,
    pub proxied: Option<bool>,
    pub record_type: RecordType,
    pub comment: Option<String>,
    pub created_on: String,
    /// The identifier by which the record is changed later.
    pub id: String,
    pub meta: Option<MetaInfo>,
    pub modified_on: String,
    pub proxiable: bool,
    pub tags: Vec<String>,
    pub ttl: u32,
    pub zone_name: String,
}

/// The answer to a query for the records of one name and type.
#[derive(Debug)]
pub struct DescribeRecord {
    pub result: Vec<RecordDetail>,
    pub errors: Vec<CodeMessagePair>,
    pub messages: Vec<CodeMessagePair>,
    pub success: bool,
    pub result_info: ResultInfo,
}

/// The answer to the creation of a record.
#[derive(Debug)]
pub struct CreateRecord {
    pub result: RecordDetail,
    pub errors: Vec<CodeMessagePair>,
    pub messages: Vec<CodeMessagePair>,
    pub success: bool,
}

/// The answer to the change of a record.
#[derive(Debug)]
pub struct UpdateRecord {
    pub result: RecordDetail,
    pub errors: Vec<CodeMessagePair>,
    pub messages: Vec<CodeMessagePair>,
    pub success: bool,
}

} // verus!
