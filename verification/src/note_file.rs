//! The file format of a note: YAML front matter between `---` lines, then
//! the note's text. Turning the metadata into YAML and back is left to the
//! caller; this module frames and splits the text.
use gray_matter::engine::YAML;
use gray_matter::Matter;
use vstd::prelude::*;
use vstd::string::*;

verus! {

/// The line that closes the front matter.
pub open spec fn matter_delimiter() -> Seq<char> {
    seq!['-', '-', '-', '\n']
}

/// A note file's text for metadata written as `metadata_yaml` (which
/// opens the front matter itself) and the note's text `content`.
pub open spec fn framed_note(metadata_yaml: Seq<char>, content: Seq<char>) -> Seq<char> {
    metadata_yaml + matter_delimiter() + content
}

/// A note file holds the metadata text, then the line `---` closing the
/// front matter, then the note's text, whatever the text is (an empty
/// one too): nothing is dropped, added or reordered.
pub proof fn lemma_framed_note_layout(metadata_yaml: Seq<char>, content: Seq<char>)
    ensures
        framed_note(metadata_yaml, content).len() == metadata_yaml.len() as int + 4 + content.len(),
        framed_note(metadata_yaml, content).subrange(0, metadata_yaml.len() as int)
            == metadata_yaml,
        framed_note(metadata_yaml, content).subrange(
            metadata_yaml.len() as int,
            metadata_yaml.len() as int + 4,
        ) == seq!['-', '-', '-', '\n'],
        framed_note(metadata_yaml, content).subrange(
            metadata_yaml.len() as int + 4,
            metadata_yaml.len() as int + 4 + content.len(),
        ) == content,
{
    let f = framed_note(metadata_yaml, content);
    assert(f.subrange(0, metadata_yaml.len() as int) =~= metadata_yaml);
    assert(f.subrange(metadata_yaml.len() as int, metadata_yaml.len() as int + 4) =~= seq![
        '-',
        '-',
        '-',
        '\n',
    ]);
    assert(f.subrange(metadata_yaml.len() as int + 4, metadata_yaml.len() as int + 4 + content.len())
        =~= content);
}

/// What `gray_matter::Matter::<YAML>::parse` gives for `input`: the raw
/// front matter (empty when there is none) and the text after it.
pub uninterp spec fn front_matter_parse(input: Seq<char>) -> (Seq<char>, Seq<char>);

/// Splits `input` with `gray_matter`'s YAML front-matter parser
/// (`Matter::<YAML>::new().parse`), keeping its raw front matter
/// (`matter`) and the text that follows (`content`). The parser reads its
/// input alone; an empty input gives no front matter and no text.
#[verifier::external_body]
fn matter_parse(input: &str) -> (parsed: (String, String))
    ensures
        (parsed.0@, parsed.1@) == front_matter_parse(input@),
        input@.len() == 0 ==> parsed.0@.len() == 0 && parsed.1@.len() == 0,
{
    let entity = Matter::<YAML>::new().parse(input);
    (entity.matter, entity.content)
}

/// A note file split in two.
#[derive(Debug, PartialEq, Eq)]
pub struct ParsedNote {
    /// The front matter to read the metadata from; `None` when the file
    /// has none, and the metadata then takes its default values.
    pub metadata_source: Option<String>,
    /// The note's text.
    pub content: String,
}

/// Splits the text of a note file into its front matter, if it has one,
/// and the note's text.
pub fn parse_note(text: &str) -> (parsed: ParsedNote)
    ensures
        ({
            let (matter, content) = front_matter_parse(text@);
            &&& parsed.content@ == content
            &&& matter.len() == 0 ==> parsed.metadata_source is None
            &&& matter.len() > 0 ==> (parsed.metadata_source matches Some(m) && m@ == matter)
        }),
{
    let (matter, content) = matter_parse(text);
    if matter.as_str().is_empty() {
        ParsedNote { metadata_source: None, content }
    } else {
        ParsedNote { metadata_source: Some(matter), content }
    }
}

/// The text of a note file: the metadata's YAML, which opens the front
/// matter, a closing `---` line, then the note's text.
pub fn frame_note(metadata_yaml: &str, content: &str) -> (text: String)
    ensures
        text@ == framed_note(metadata_yaml@, content@),
{
    let mut text = String::from_str(metadata_yaml);
    proof {
        reveal_strlit("---\n");
    }
    text.append("---\n");
    text.append(content);
    text
}

} // verus!
