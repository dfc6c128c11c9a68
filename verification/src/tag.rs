//! Case-insensitive labels and sets of them.

use vstd::prelude::*;

verus! {

/// The ASCII lower-case form of a character: `'A'..='Z'` map to
/// `'a'..='z'`, every other character to itself.
pub open spec fn lower_char(c: char) -> char {
    if 'A' <= c && c <= 'Z' {
        ((c as u8) + 32) as u8 as char
    } else {
        c
    }
}

/// The text with every character in ASCII lower case.
pub open spec fn lowered(s: Seq<char>) -> Seq<char> {
    s.map_values(|c: char| lower_char(c))
}

/// Whether no character of the text is an ASCII capital.
pub open spec fn is_lower(s: Seq<char>) -> bool {
    forall|i: int| 0 <= i < s.len() ==> !('A' <= #[trigger] s[i] && s[i] <= 'Z')
}

/// Lower-casing yields lower-case text, and leaves lower-case text alone.
pub proof fn lemma_lowered(s: Seq<char>)
    ensures
        is_lower(lowered(s)),
        is_lower(s) ==> lowered(s) == s,
{
    assert forall|i: int| 0 <= i < s.len() implies !('A' <= #[trigger] lowered(s)[i] && lowered(
        s,
    )[i] <= 'Z') by {
        let c = s[i];
        if 'A' <= c && c <= 'Z' {
            assert(97 <= (c as u8) + 32 <= 122);
        }
    }
    if is_lower(s) {
        assert(lowered(s) =~= s);
    }
}

/// `str::to_ascii_lowercase`: a copy of the text in which the ASCII
/// letters `'A'..='Z'` are replaced by `'a'..='z'` and every other
/// character is kept, in the same order.
#[verifier::external_body]
fn ascii_lowercase(s: &str) -> (r: String)
    ensures
        r@ == lowered(s@),
{
    s.to_ascii_lowercase()
}

/// A label, kept in ASCII lower case so that labels compare without regard
/// to case.
#[derive(Debug, PartialEq, Eq)]
pub struct Tag {
    text: String,
}

impl View for Tag {
    type V = Seq<char>;

    closed spec fn view(&self) -> Seq<char> {
        self.text@
    }
}

impl DeepView for Tag {
    type V = Seq<char>;

    open spec fn deep_view(&self) -> Seq<char> {
        self@
    }
}

impl Tag {
    #[verifier::type_invariant]
    spec fn lower_case(self) -> bool {
        is_lower(self.text@)
    }

    /// The label for a text: the text in ASCII lower case.
    pub fn new(value: &str) -> (t: Tag)
        ensures
            t@ == lowered(value@),
    {
        proof {
            lemma_lowered(value@);
        }
        Tag { text: ascii_lowercase(value) }
    }

    /// The label's text, which holds no ASCII capital.
    pub fn as_str(&self) -> (s: &str)
        ensures
            s@ == self@,
            is_lower(s@),
    {
        proof {
            use_type_invariant(self);
        }
        self.text.as_str()
    }

    /// Whether two labels are the same.
    pub fn same(&self, other: &Tag) -> (r: bool)
        ensures
            r == (self@ == other@),
    {
        self.text == other.text
    }
}

impl Clone for Tag {
    fn clone(&self) -> (t: Tag)
        ensures
            t@ == self@,
    {
        proof {
            use_type_invariant(self);
        }
        Tag { text: self.text.clone() }
    }
}

/// A set of labels: no label occurs twice. Labels keep the order in which
/// they were added.
#[derive(Debug)]
pub struct TagSet {
    tags: Vec<Tag>,
}

/// Whether no text occurs twice in the sequence.
pub open spec fn distinct_texts(s: Seq<Seq<char>>) -> bool {
    forall|i: int, j: int| 0 <= i < j < s.len() ==> s[i] != s[j]
}

impl View for TagSet {
    type V = Seq<Seq<char>>;

    closed spec fn view(&self) -> Seq<Seq<char>> {
        self.tags@.map_values(|t: Tag| t@)
    }
}

impl DeepView for TagSet {
    type V = Seq<Seq<char>>;

    open spec fn deep_view(&self) -> Seq<Seq<char>> {
        self@
    }
}

impl TagSet {
    #[verifier::type_invariant]
    spec fn no_duplicates(self) -> bool {
        distinct_texts(self@)
    }

    /// The empty set.
    pub fn new() -> (s: TagSet)
        ensures
            s@ == Seq::<Seq<char>>::empty(),
    {
        let s = TagSet { tags: Vec::new() };
        assert(s@ =~= Seq::<Seq<char>>::empty());
        s
    }

    /// The number of labels in the set.
    pub fn len(&self) -> (n: usize)
        ensures
            n == self@.len(),
    {
        self.tags.len()
    }

    /// Whether the set holds the label.
    pub fn contains(&self, tag: &Tag) -> (r: bool)
        ensures
            r == self@.contains(tag@),
            distinct_texts(self@),
    {
        proof {
            use_type_invariant(self);
        }
        let mut i: usize = 0;
        while i < self.tags.len()
            invariant
                i <= self.tags.len(),
                forall|k: int| 0 <= k < i ==> self@[k] != tag@,
                distinct_texts(self@),
            decreases self.tags.len() - i,
        {
            if self.tags[i].same(tag) {
                assert(self@[i as int] == tag@);
                return true;
            }
            i += 1;
        }
        false
    }

    /// Adds the label unless the set holds it already. Returns whether the
    /// label was added.
    pub fn insert(&mut self, tag: Tag) -> (added: bool)
        ensures
            added == !old(self)@.contains(tag@),
            final(self)@ == if added {
                old(self)@.push(tag@)
            } else {
                old(self)@
            },
    {
        if self.contains(&tag) {
            false
        } else {
            let ghost before = self@;
            let mut tags: Vec<Tag> = Vec::new();
            core::mem::swap(&mut self.tags, &mut tags);
            tags.push(tag);
            proof {
                let after = tags@.map_values(|t: Tag| t@);
                assert(after =~= before.push(tag@));
                assert forall|i: int, j: int| 0 <= i < j < after.len() implies after[i]
                    != after[j] by {
                    if j == before.len() {
                        assert(before.contains(before[i]));
                    }
                }
            }
            self.tags = tags;
            true
        }
    }

    /// The label at a position, in the order of insertion.
    pub fn get(&self, i: usize) -> (t: &Tag)
        requires
            i < self@.len(),
        ensures
            t@ == self@[i as int],
    {
        &self.tags[i]
    }
}

impl Clone for TagSet {
    fn clone(&self) -> (s: TagSet)
        ensures
            s@ == self@,
    {
        proof {
            use_type_invariant(self);
        }
        let mut tags: Vec<Tag> = Vec::new();
        let mut i: usize = 0;
        while i < self.tags.len()
            invariant
                i <= self.tags.len(),
                tags@.map_values(|t: Tag| t@) == self@.take(i as int),
            decreases self.tags.len() - i,
        {
            let ghost before = tags@.map_values(|t: Tag| t@);
            tags.push(self.tags[i].clone());
            assert(tags@.map_values(|t: Tag| t@) =~= before.push(self@[i as int]));
            assert(self@.take(i as int).push(self@[i as int]) =~= self@.take(i + 1));
            i += 1;
        }
        assert(self@.take(i as int) =~= self@);
        TagSet { tags }
    }
}

} // verus!
