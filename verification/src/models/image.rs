use crate::models::service_config::{Image, ImageView};
use vstd::prelude::*;
use vstd::string::StringExecFns;

verus! {

/// The place of the last `mark` in `text`, -1 where there is none.
pub open spec fn last_index_of(text: Seq<char>, mark: char) -> int
    decreases text.len(),
{
    if text.len() == 0 {
        -1
    } else if text.last() == mark {
        text.len() - 1
    } else {
        last_index_of(text.drop_last(), mark)
    }
}

/// What stands before the last `mark`, nothing where there is no mark.
pub open spec fn before_last(text: Seq<char>, mark: char) -> Option<Seq<char>> {
    if last_index_of(text, mark) < 0 {
        None
    } else {
        Some(text.take(last_index_of(text, mark)))
    }
}

/// What stands behind the last `mark`, all of it where there is no mark.
pub open spec fn behind_last(text: Seq<char>, mark: char) -> Seq<char> {
    text.skip(last_index_of(text, mark) + 1)
}

/// What stands behind the last `mark`, nothing where there is no mark.
pub open spec fn after_last(text: Seq<char>, mark: char) -> Option<Seq<char>> {
    if last_index_of(text, mark) < 0 {
        None
    } else {
        Some(behind_last(text, mark))
    }
}

/// What stands before the last `mark`, all of it where there is no mark.
pub open spec fn up_to_last(text: Seq<char>, mark: char) -> Seq<char> {
    if last_index_of(text, mark) < 0 {
        text
    } else {
        text.take(last_index_of(text, mark))
    }
}

/// The text names an image by the digest of its content.
pub open spec fn is_digest_text(text: Seq<char>) -> bool {
    text.len() >= 7 && text.take(7) == "sha256:"@
}

/// The image that a name of the container runtime stands for. A name that
/// begins with `sha256:` is a digest. Any other name is read from the back:
/// behind the last `/` stand the repository and, behind a `:`, the tag;
/// before it stands the user and, before one more `/`, the registry.
pub open spec fn parse_image(text: Seq<char>) -> ImageView {
    if is_digest_text(text) {
        ImageView::Digest { hash: text }
    } else {
        let last = behind_last(text, '/');
        match before_last(text, '/') {
            None => ImageView::Named {
                repo: up_to_last(last, ':'),
                registry: None,
                user: None,
                tag: after_last(last, ':'),
            },
            Some(path) => ImageView::Named {
                repo: up_to_last(last, ':'),
                registry: before_last(path, '/'),
                user: Some(behind_last(path, '/')),
                tag: after_last(last, ':'),
            },
        }
    }
}

/// The last index is a place of the mark, or -1.
pub proof fn lemma_last_index_of(text: Seq<char>, mark: char)
    ensures
        -1 <= last_index_of(text, mark) < text.len(),
        last_index_of(text, mark) >= 0 ==> text[last_index_of(text, mark)] == mark,
    decreases text.len(),
{
    if text.len() > 0 && text.last() != mark {
        lemma_last_index_of(text.drop_last(), mark);
    }
}

/// A text split at its last mark is put together again by the mark.
pub proof fn lemma_split_at_last(text: Seq<char>, mark: char)
    ensures
        last_index_of(text, mark) >= 0 ==> text == text.take(last_index_of(text, mark)) + seq![mark]
            + behind_last(text, mark),
        last_index_of(text, mark) < 0 ==> text == behind_last(text, mark),
{
    lemma_last_index_of(text, mark);
    let at = last_index_of(text, mark);
    if at >= 0 {
        assert(text =~= text.take(at) + seq![mark] + text.skip(at + 1));
    } else {
        assert(text =~= text.skip(0));
    }
}

/// Every name that is no digest is the name of the image it is read as.
pub proof fn lemma_parsed_image_keeps_its_name(text: Seq<char>)
    ensures
        parse_image(text).name() == text,
{
    reveal_strlit("/");
    reveal_strlit(":");
    assert("/"@ =~= seq!['/']);
    assert(":"@ =~= seq![':']);
    if !is_digest_text(text) {
        let last = behind_last(text, '/');
        lemma_split_at_last(text, '/');
        lemma_split_at_last(last, ':');
        match before_last(text, '/') {
            None => {
                assert(parse_image(text).name() =~= text);
            },
            Some(path) => {
                lemma_split_at_last(path, '/');
                assert(parse_image(text).name() =~= text);
            },
        }
    }
}

/// A name read as an image is a digest exactly when it begins with the mark
/// of a digest.
pub proof fn lemma_parsed_image_is_digest(text: Seq<char>)
    ensures
        parse_image(text).is_digest() == is_digest_text(text),
{
}

/// The characters of a text.
pub fn chars_of(text: &str) -> (chars: Vec<char>)
    ensures
        chars@ == text@,
{
    let mut chars: Vec<char> = Vec::new();
    for c in it: text.chars()
        invariant
            it.seq() == text@,
            chars@ == it.seq().take(it.index() as int),
    {
        chars.push(c);
    }
    chars
}

/// The place of the last `mark` among the characters from `from` up to
/// `to`, counted from `from`.
fn last_index(chars: &Vec<char>, from: usize, to: usize, mark: char) -> (at: Option<usize>)
    requires
        from <= to <= chars.len(),
    ensures
        match at {
            Some(i) => i == last_index_of(chars@.subrange(from as int, to as int), mark) && i < to
                - from,
            None => last_index_of(chars@.subrange(from as int, to as int), mark) == -1,
        },
{
    let ghost text = chars@.subrange(from as int, to as int);
    let mut i: usize = to;
    assert(text.take((to - from) as int) =~= text);
    while i > from
        invariant
            from <= i <= to <= chars.len(),
            text == chars@.subrange(from as int, to as int),
            last_index_of(text, mark) == last_index_of(text.take((i - from) as int), mark),
        decreases i,
    {
        let ghost front = text.take((i - from) as int);
        assert(front.last() == chars@[i - 1]);
        if chars[i - 1] == mark {
            return Some(i - 1 - from);
        }
        assert(front.drop_last() =~= text.take((i - 1 - from) as int));
        i -= 1;
    }
    None
}

fn has_digest_mark(chars: &Vec<char>) -> (b: bool)
    ensures
        b == is_digest_text(chars@),
{
    proof {
        reveal_strlit("sha256:");
    }
    if chars.len() < 7 {
        return false;
    }
    let found = chars[0] == 's' && chars[1] == 'h' && chars[2] == 'a' && chars[3] == '2' && chars[4]
        == '5' && chars[5] == '6' && chars[6] == ':';
    proof {
        let front = chars@.take(7);
        if found {
            assert(front =~= "sha256:"@);
        } else {
            assert(front[0] == chars@[0] && front[1] == chars@[1] && front[2] == chars@[2]
                && front[3] == chars@[3] && front[4] == chars@[4] && front[5] == chars@[5]
                && front[6] == chars@[6]);
        }
    }
    found
}

fn part(text: &str, from: usize, to: usize) -> (part: String)
    requires
        from <= to <= text@.len(),
    ensures
        part@ == text@.subrange(from as int, to as int),
{
    String::from_str(text.substring_char(from, to))
}

impl Image {
    /// Reads the name under which the container runtime knows an image.
    pub fn parse(text: &String) -> (image: Image)
        ensures
            image.deep_view() == parse_image(text@),
    {
        let chars = chars_of(text.as_str());
        if has_digest_mark(&chars) {
            return Image::Digest { hash: text.clone() };
        }
        let ghost all = text@;
        let end = chars.len();
        assert(all.subrange(0, end as int) =~= all);
        let slash = last_index(&chars, 0, end, '/');
        let start: usize = match slash {
            Some(at) => at + 1,
            None => 0,
        };
        let ghost last = behind_last(all, '/');
        assert(last =~= all.subrange(start as int, end as int));
        let colon = last_index(&chars, start, end, ':');
        let (repo, tag) = match colon {
            Some(at) => {
                assert(last.take(at as int) =~= all.subrange(start as int, start + at));
                assert(last.skip(at + 1) =~= all.subrange(start + at + 1, end as int));
                (
                    part(text.as_str(), start, start + at),
                    Some(part(text.as_str(), start + at + 1, end)),
                )
            },
            None => (part(text.as_str(), start, end), None),
        };
        match slash {
            None => Image::Named { repo, registry: None, user: None, tag },
            Some(at) => {
                let ghost path = all.take(at as int);
                assert(path =~= all.subrange(0, at as int));
                let inner = last_index(&chars, 0, at, '/');
                let (registry, user) = match inner {
                    Some(split) => {
                        assert(path.take(split as int) =~= all.subrange(0, split as int));
                        assert(path.skip(split + 1) =~= all.subrange(split + 1, at as int));
                        (
                            Some(part(text.as_str(), 0, split)),
                            part(text.as_str(), split + 1, at),
                        )
                    },
                    None => {
                        assert(path.skip(0) =~= all.subrange(0, at as int));
                        (None, part(text.as_str(), 0, at))
                    },
                };
                Image::Named { repo, registry, user: Some(user), tag }
            },
        }
    }
}

} // verus!
