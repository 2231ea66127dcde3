//! The export kinds that the decompiler understands, and how a typed word resolves to one.

use crate::text::same_text;
use vstd::prelude::*;
use vstd::string::*;

verus! {

/// What the decompiler is asked to export.
#[derive(Debug, Clone, PartialEq, Eq)]
pub enum ExportType {
    Script,
    Image,
    Shape,
    MorphShape,
    Movie,
    Font,
    Font4,
    Frame,
    Sprite,
    Button,
    Sound,
    BinaryData,
    SymbolClass,
    Text,
    All,
    Fla,
    Xfl,
    /// A word outside the built-in vocabulary, kept in lower case and handed
    /// to the decompiler as it is.
    Other(String),
}

/// The mathematical value of an [`ExportType`].
pub enum Category {
    Script,
    Image,
    Shape,
    MorphShape,
    Movie,
    Font,
    Font4,
    Frame,
    Sprite,
    Button,
    Sound,
    BinaryData,
    SymbolClass,
    Text,
    All,
    Fla,
    Xfl,
    Other(Seq<char>),
}

impl View for ExportType {
    type V = Category;

    open spec fn view(&self) -> Category {
        match self {
            ExportType::Script => Category::Script,
            ExportType::Image => Category::Image,
            ExportType::Shape => Category::Shape,
            ExportType::MorphShape => Category::MorphShape,
            ExportType::Movie => Category::Movie,
            ExportType::Font => Category::Font,
            ExportType::Font4 => Category::Font4,
            ExportType::Frame => Category::Frame,
            ExportType::Sprite => Category::Sprite,
            ExportType::Button => Category::Button,
            ExportType::Sound => Category::Sound,
            ExportType::BinaryData => Category::BinaryData,
            ExportType::SymbolClass => Category::SymbolClass,
            ExportType::Text => Category::Text,
            ExportType::All => Category::All,
            ExportType::Fla => Category::Fla,
            ExportType::Xfl => Category::Xfl,
            ExportType::Other(word) => Category::Other(word@),
        }
    }
}

/// The built-in categories, in the order in which they are listed.
pub open spec fn builtin_categories() -> Seq<Category> {
    seq![
        Category::Script,
        Category::Image,
        Category::Shape,
        Category::MorphShape,
        Category::Movie,
        Category::Font,
        Category::Font4,
        Category::Frame,
        Category::Sprite,
        Category::Button,
        Category::Sound,
        Category::BinaryData,
        Category::SymbolClass,
        Category::Text,
        Category::All,
        Category::Fla,
        Category::Xfl,
    ]
}

/// Whether `category` belongs to the built-in vocabulary.
pub open spec fn is_builtin(category: Category) -> bool {
    !(category is Other)
}

/// The lower-case keyword under which a category is recognised. For a word
/// outside the vocabulary it is the word itself.
pub open spec fn keyword(category: Category) -> Seq<char> {
    match category {
        Category::Script => "script"@,
        Category::Image => "image"@,
        Category::Shape => "shape"@,
        Category::MorphShape => "morphshape"@,
        Category::Movie => "movie"@,
        Category::Font => "font"@,
        Category::Font4 => "font4"@,
        Category::Frame => "frame"@,
        Category::Sprite => "sprite"@,
        Category::Button => "button"@,
        Category::Sound => "sound"@,
        Category::BinaryData => "binarydata"@,
        Category::SymbolClass => "symbolclass"@,
        Category::Text => "text"@,
        Category::All => "all"@,
        Category::Fla => "fla"@,
        Category::Xfl => "xfl"@,
        Category::Other(word) => word,
    }
}

/// The spelling that the decompiler expects on its command line.
pub open spec fn spelling(category: Category) -> Seq<char> {
    match category {
        Category::Script => "script"@,
        Category::Image => "image"@,
        Category::Shape => "shape"@,
        Category::MorphShape => "morphshape"@,
        Category::Movie => "movie"@,
        Category::Font => "font"@,
        Category::Font4 => "font4"@,
        Category::Frame => "frame"@,
        Category::Sprite => "sprite"@,
        Category::Button => "button"@,
        Category::Sound => "sound"@,
        Category::BinaryData => "binaryData"@,
        Category::SymbolClass => "symbolClass"@,
        Category::Text => "text"@,
        Category::All => "all"@,
        Category::Fla => "fla"@,
        Category::Xfl => "xfl"@,
        Category::Other(word) => word,
    }
}

/// Whether `word` is one of the built-in keywords.
pub open spec fn is_keyword(word: Seq<char>) -> bool {
    exists|category: Category| is_builtin(category) && #[trigger] keyword(category) == word
}

/// The category that a lower-case word stands for: the built-in category
/// with that keyword, or else the word itself.
pub open spec fn resolve(word: Seq<char>) -> Category {
    if word == "script"@ {
        Category::Script
    } else if word == "image"@ {
        Category::Image
    } else if word == "shape"@ {
        Category::Shape
    } else if word == "morphshape"@ {
        Category::MorphShape
    } else if word == "movie"@ {
        Category::Movie
    } else if word == "font"@ {
        Category::Font
    } else if word == "font4"@ {
        Category::Font4
    } else if word == "frame"@ {
        Category::Frame
    } else if word == "sprite"@ {
        Category::Sprite
    } else if word == "button"@ {
        Category::Button
    } else if word == "sound"@ {
        Category::Sound
    } else if word == "binarydata"@ {
        Category::BinaryData
    } else if word == "symbolclass"@ {
        Category::SymbolClass
    } else if word == "text"@ {
        Category::Text
    } else if word == "all"@ {
        Category::All
    } else if word == "fla"@ {
        Category::Fla
    } else if word == "xfl"@ {
        Category::Xfl
    } else {
        Category::Other(word)
    }
}

/// The lower-cased form of a text, as `str::to_lowercase` gives it.
pub uninterp spec fn lowercased(text: Seq<char>) -> Seq<char>;

/// Calls `str::to_lowercase`. Its result is named `lowercased`: it depends on
/// the characters of `text` alone, and nothing more is claimed of it.
#[verifier::external_body]
pub(crate) fn to_lowercase(text: &str) -> (lowered: String)
    ensures
        lowered@ == lowercased(text@),
{
    text.to_lowercase()
}

impl ExportType {
    /// The category of a word that is already in lower case.
    pub fn from_lowered(word: String) -> (kind: ExportType)
        ensures
            kind@ == resolve(word@),
    {
        let text = word.as_str();
        if same_text(text, "script") {
            ExportType::Script
        } else if same_text(text, "image") {
            ExportType::Image
        } else if same_text(text, "shape") {
            ExportType::Shape
        } else if same_text(text, "morphshape") {
            ExportType::MorphShape
        } else if same_text(text, "movie") {
            ExportType::Movie
        } else if same_text(text, "font") {
            ExportType::Font
        } else if same_text(text, "font4") {
            ExportType::Font4
        } else if same_text(text, "frame") {
            ExportType::Frame
        } else if same_text(text, "sprite") {
            ExportType::Sprite
        } else if same_text(text, "button") {
            ExportType::Button
        } else if same_text(text, "sound") {
            ExportType::Sound
        } else if same_text(text, "binarydata") {
            ExportType::BinaryData
        } else if same_text(text, "symbolclass") {
            ExportType::SymbolClass
        } else if same_text(text, "text") {
            ExportType::Text
        } else if same_text(text, "all") {
            ExportType::All
        } else if same_text(text, "fla") {
            ExportType::Fla
        } else if same_text(text, "xfl") {
            ExportType::Xfl
        } else {
            ExportType::Other(word)
        }
    }

    /// Resolves a word without regard to case. Every word resolves: one
    /// outside the vocabulary becomes `Other` with its lower-case form.
    pub fn from_str(s: &str) -> (resolved: Result<ExportType, String>)
        ensures
            resolved is Ok,
            resolved->Ok_0@ == resolve(lowercased(s@)),
    {
        Ok(ExportType::from_lowered(to_lowercase(s)))
    }

    /// The spelling that the decompiler expects for this category.
    pub fn as_str(&self) -> (rendered: &str)
        ensures
            rendered@ == spelling(self@),
    {
        match self {
            ExportType::Script => "script",
            ExportType::Image => "image",
            ExportType::Shape => "shape",
            ExportType::MorphShape => "morphshape",
            ExportType::Movie => "movie",
            ExportType::Font => "font",
            ExportType::Font4 => "font4",
            ExportType::Frame => "frame",
            ExportType::Sprite => "sprite",
            ExportType::Button => "button",
            ExportType::Sound => "sound",
            ExportType::BinaryData => "binaryData",
            ExportType::SymbolClass => "symbolClass",
            ExportType::Text => "text",
            ExportType::All => "all",
            ExportType::Fla => "fla",
            ExportType::Xfl => "xfl",
            ExportType::Other(word) => word.as_str(),
        }
    }
}

/// The built-in keywords, in the order in which they are listed for display.
pub fn type_names() -> (names: Vec<&'static str>)
    ensures
        names@.len() == builtin_categories().len(),
        forall|i: int|
            0 <= i < names@.len() ==> (#[trigger] names@[i])@ == keyword(builtin_categories()[i]),
{
    vec![
        "script", "image", "shape", "morphshape", "movie", "font", "font4", "frame", "sprite",
        "button", "sound", "binarydata", "symbolclass", "text", "all", "fla", "xfl",
    ]
}

/// The length and the first three characters of a word.
pub open spec fn shape(word: Seq<char>) -> (nat, char, char, char) {
    (word.len(), word[0], word[1], word[2])
}

/// The shape of each keyword. No two keywords have the same.
proof fn keyword_shapes()
    ensures
        shape("script"@) == (6nat, 's', 'c', 'r'),
        shape("image"@) == (5nat, 'i', 'm', 'a'),
        shape("shape"@) == (5nat, 's', 'h', 'a'),
        shape("morphshape"@) == (10nat, 'm', 'o', 'r'),
        shape("movie"@) == (5nat, 'm', 'o', 'v'),
        shape("font"@) == (4nat, 'f', 'o', 'n'),
        shape("font4"@) == (5nat, 'f', 'o', 'n'),
        shape("frame"@) == (5nat, 'f', 'r', 'a'),
        shape("sprite"@) == (6nat, 's', 'p', 'r'),
        shape("button"@) == (6nat, 'b', 'u', 't'),
        shape("sound"@) == (5nat, 's', 'o', 'u'),
        shape("binarydata"@) == (10nat, 'b', 'i', 'n'),
        shape("symbolclass"@) == (11nat, 's', 'y', 'm'),
        shape("text"@) == (4nat, 't', 'e', 'x'),
        shape("all"@) == (3nat, 'a', 'l', 'l'),
        shape("fla"@) == (3nat, 'f', 'l', 'a'),
        shape("xfl"@) == (3nat, 'x', 'f', 'l'),
{
    reveal_strlit("script");
    reveal_strlit("image");
    reveal_strlit("shape");
    reveal_strlit("morphshape");
    reveal_strlit("movie");
    reveal_strlit("font");
    reveal_strlit("font4");
    reveal_strlit("frame");
    reveal_strlit("sprite");
    reveal_strlit("button");
    reveal_strlit("sound");
    reveal_strlit("binarydata");
    reveal_strlit("symbolclass");
    reveal_strlit("text");
    reveal_strlit("all");
    reveal_strlit("fla");
    reveal_strlit("xfl");
}

/// No two built-in categories share a keyword.
pub proof fn keywords_are_distinct(a: Category, b: Category)
    requires
        is_builtin(a),
        is_builtin(b),
        keyword(a) == keyword(b),
    ensures
        a == b,
{
    keyword_shapes();
}

/// A built-in category is found again under its own keyword.
pub proof fn keyword_resolves_to_its_category(category: Category)
    requires
        is_builtin(category),
    ensures
        resolve(keyword(category)) == category,
        is_keyword(keyword(category)),
{
    keyword_shapes();
}

/// A word resolves to a built-in category exactly when it is a keyword, and
/// then it is that category's keyword.
pub proof fn resolve_finds_keywords(word: Seq<char>)
    ensures
        is_builtin(resolve(word)) <==> is_keyword(word),
        is_builtin(resolve(word)) ==> keyword(resolve(word)) == word,
        !is_builtin(resolve(word)) ==> resolve(word) == Category::Other(word),
{
    if is_keyword(word) {
        let category = choose|category: Category|
            is_builtin(category) && #[trigger] keyword(category) == word;
        keyword_resolves_to_its_category(category);
    }
    if is_builtin(resolve(word)) {
        assert(keyword(resolve(word)) == word);
    }
}

/// The listed categories are the built-in ones, each once.
pub proof fn listing_is_complete(category: Category)
    ensures
        is_builtin(category) <==> builtin_categories().contains(category),
        builtin_categories().no_duplicates(),
{
    let listed = builtin_categories();
    if is_builtin(category) {
        let i: int = match category {
            Category::Script => 0,
            Category::Image => 1,
            Category::Shape => 2,
            Category::MorphShape => 3,
            Category::Movie => 4,
            Category::Font => 5,
            Category::Font4 => 6,
            Category::Frame => 7,
            Category::Sprite => 8,
            Category::Button => 9,
            Category::Sound => 10,
            Category::BinaryData => 11,
            Category::SymbolClass => 12,
            Category::Text => 13,
            Category::All => 14,
            Category::Fla => 15,
            _ => 16,
        };
        assert(listed[i] == category);
    }
}

/// A text whose lower-case form is the keyword of a built-in category is
/// rendered in that category's spelling, whatever the case it was typed in.
pub proof fn builtin_word_renders_in_expected_spelling(text: Seq<char>, category: Category)
    requires
        is_builtin(category),
        lowercased(text) == keyword(category),
    ensures
        resolve(lowercased(text)) == category,
        spelling(resolve(lowercased(text))) == spelling(category),
{
    keyword_resolves_to_its_category(category);
}

/// A text whose lower-case form is no keyword is rendered as that lower-case form.
pub proof fn unknown_word_renders_in_lower_case(text: Seq<char>)
    requires
        !is_keyword(lowercased(text)),
    ensures
        resolve(lowercased(text)) == Category::Other(lowercased(text)),
        spelling(resolve(lowercased(text))) == lowercased(text),
{
    resolve_finds_keywords(lowercased(text));
}

/// Only two words are rendered otherwise than in their lower-case form: the
/// two keywords whose spelling has a capital inside.
pub proof fn rendering_keeps_lower_case_form(text: Seq<char>)
    requires
        lowercased(text) != "binarydata"@,
        lowercased(text) != "symbolclass"@,
    ensures
        spelling(resolve(lowercased(text))) == lowercased(text),
{
}

} // verus!
