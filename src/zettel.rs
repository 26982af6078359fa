//! A `Zettel` is a note: a body of text with an identifier, a creation date and a title that
//! is always the first line of the body.
use crate::identity::{id_text, now, picker_line, random_id, Timestamp};
use vstd::prelude::*;
use vstd::string::{StrSliceExecFns, StringExecFns};

verus! {

/// True when `s` holds no line feed.
pub open spec fn has_no_newline(s: Seq<char>) -> bool {
    forall|k: int| 0 <= k < s.len() ==> s[k] != '\n'
}

/// The first line of `s`, as `str::lines` yields it: the text before the first line feed,
/// without a carriage return that ends it. Empty text has no lines, so its first line is empty.
pub open spec fn first_line_of(s: Seq<char>) -> Seq<char> {
    if has_no_newline(s) {
        s
    } else {
        let k = choose|k: int| 0 <= k < s.len() && s[k] == '\n' && has_no_newline(s.take(k));
        let line = s.take(k);
        if line.len() > 0 && line.last() == '\r' {
            line.drop_last()
        } else {
            line
        }
    }
}

/// The first line of `body` (empty when `body` is empty).
pub fn first_line(body: &str) -> (r: String)
    ensures
        r@ == first_line_of(body@),
{
    let n = body.unicode_len();
    let mut i: usize = 0;
    let mut found = false;
    while i < n && !found
        invariant
            n == body@.len(),
            i <= n,
            has_no_newline(body@.take(i as int)),
            found ==> i < n && body@[i as int] == '\n',
        decreases n - i + (if found { 0int } else { 1int }),
    {
        if body.get_char(i) == '\n' {
            found = true;
        } else {
            assert(body@.take(i as int + 1) =~= body@.take(i as int).push(body@[i as int]));
            i = i + 1;
        }
    }
    let end = if found && i > 0 && body.get_char(i - 1) == '\r' {
        i - 1
    } else {
        i
    };
    let r = String::from_str(body.substring_char(0, end));
    proof {
        let s = body@;
        if found {
            assert(!has_no_newline(s));
            let k = choose|k: int| 0 <= k < s.len() && s[k] == '\n' && has_no_newline(s.take(k));
            if k < i {
                assert(s.take(i as int)[k] == '\n');
            }
            if k > i {
                assert(s.take(k)[i as int] == '\n');
            }
            assert(k == i);
            assert(r@ =~= first_line_of(s));
        } else {
            assert(s.take(i as int) =~= s);
            assert(r@ =~= first_line_of(s));
        }
    }
    r
}

/// What a store keeps of every note without loading its body.
#[derive(Debug)]
pub struct MetaData {
    /// The note's identifier: the 128 bits of a random UUID.
    pub id: u128,
    pub title: String,
    pub creation_date: Timestamp,
}

impl Clone for MetaData {
    fn clone(&self) -> (r: Self)
        ensures
            r == *self,
    {
        MetaData { id: self.id, title: self.title.clone(), creation_date: self.creation_date }
    }
}

impl MetaData {
    /// The line that lists this note in a picker: its title, then its identifier after a
    /// separator (see `parse_picker_line`).
    pub fn text(&self) -> (r: String)
        ensures
            r@ == picker_line(self.title@, self.id),
    {
        let id = id_text(self.id);
        proof {
            reveal_strlit(" - \u{2063}");
        }
        let line = self.title.clone().concat(" - \u{2063}");
        let r = line.concat(id.as_str());
        proof {
            assert(r@ =~= picker_line(self.title@, self.id));
        }
        r
    }
}

/// A note. `dirty` is true whenever the note holds content that has not been persisted.
#[derive(Debug)]
pub struct Zettel {
    pub meta_data: MetaData,
    pub body: String,
    pub dirty: bool,
}

impl Clone for Zettel {
    fn clone(&self) -> (r: Self)
        ensures
            r == *self,
    {
        Zettel { meta_data: self.meta_data.clone(), body: self.body.clone(), dirty: self.dirty }
    }
}

impl Zettel {
    /// A new note with a fresh random identifier, created now, titled by the first line of
    /// `body` and marked dirty.
    pub fn new(body: String) -> (r: Zettel)
        ensures
            r.meta_data.title@ == first_line_of(body@),
            r.body == body,
            r.dirty,
    {
        let id = random_id();
        let mut zettel = Zettel {
            meta_data: MetaData { id, title: String::new(), creation_date: now() },
            body: String::new(),
            dirty: true,
        };
        zettel.update_body(body);
        zettel
    }

    /// Replace the body, take the title from its first line and mark the note dirty.
    pub fn update_body(&mut self, body: String)
        ensures
            final(self).body == body,
            final(self).meta_data.title@ == first_line_of(body@),
            final(self).dirty,
            final(self).meta_data.id == old(self).meta_data.id,
            final(self).meta_data.creation_date == old(self).meta_data.creation_date,
    {
        self.meta_data.title = first_line(body.as_str());
        self.dirty = true;
        self.body = body;
    }

    /// A note read back from storage: exactly the stored metadata and body, and clean, since
    /// its content is what was persisted.
    pub fn from_parts(meta_data: MetaData, body: String) -> (r: Zettel)
        ensures
            r.meta_data == meta_data,
            r.body == body,
            !r.dirty,
    {
        Zettel { meta_data, body, dirty: false }
    }

    /// A short form of the body for diagnostics: the whole body when it has at most ten
    /// characters, else its first five characters, `...` and its last five.
    pub fn body_preview(&self) -> (r: String)
        ensures
            r@ == preview_of(self.body@),
    {
        let n = self.body.unicode_len();
        if n <= 10 {
            self.body.clone()
        } else {
            let head = String::from_str(self.body.substring_char(0, 5));
            proof {
                reveal_strlit("...");
            }
            let with_dots = head.concat("...");
            with_dots.concat(self.body.substring_char(n - 5, n))
        }
    }
}

/// The short form of a body that `Zettel::body_preview` gives.
pub open spec fn preview_of(body: Seq<char>) -> Seq<char> {
    if body.len() <= 10 {
        body
    } else {
        body.take(5) + seq!['.', '.', '.'] + body.skip(body.len() - 5)
    }
}

} // verus!
