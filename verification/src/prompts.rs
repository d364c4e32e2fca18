//! The prompts that generation hands to the model: each a template with the
//! names of the values that fill it.
use vstd::prelude::*;
use crate::text::{chars_of, owned, push_str, replace, replace_exec, to_string};

verus! {

/// A prompt with `{name}` places for the values named in `input_variables`.
#[derive(Debug)]
pub struct PromptTemplate {
    pub template: String,
    pub input_variables: Vec<String>,
}

/// The texts of a list of names.
pub open spec fn names_of(v: Seq<String>) -> Seq<Seq<char>> {
    v.map_values(|s: String| s@)
}

fn names(list: &[&str]) -> (r: Vec<String>)
    ensures
        r@.len() == list@.len(),
        forall|k: int| 0 <= k < list@.len() ==> #[trigger] r@[k]@ == list@[k]@,
{
    let mut out: Vec<String> = Vec::new();
    let mut i: usize = 0;
    while i < list.len()
        invariant
            i <= list@.len(),
            out@.len() == i,
            forall|k: int| 0 <= k < i ==> #[trigger] out@[k]@ == list@[k]@,
        decreases list@.len() - i,
    {
        out.push(owned(list[i]));
        i = i + 1;
    }
    out
}

/// The template of the braindump prompt.
pub const BRAINDUMP_TEMPLATE: &'static str = "Generate a braindump for a novel titled '{title}', include key ideas, themes, and potential plot points.\n\nBraindump:";

/// The template of the genre prompt.
pub const GENRE_TEMPLATE: &'static str = "Given the following context, suggest an appropriate genre for the book. Provide the genre name followed by a colon and a brief description of why this genre fits the book.\n\nTitle: {title}\nBraindump: {braindump}\n\nGenre:";

/// The template of the style prompt.
pub const STYLE_TEMPLATE: &'static str = "Based on the following context, suggest a writing style for the novel. Describe the narrative perspective, tense, and any notable stylistic elements.\n\nTitle: {title}\nBraindump: {braindump}\nGenre: {genre}\n\nStyle:";

/// The template of the characters prompt.
pub const CHARACTERS_TEMPLATE: &'static str = "Create a list of characters based on the following context. For each character, provide a name followed by a colon and a brief description that fits the context, genre, and style. Format each character on a new line.\n\nTitle: {title}\nBraindump: {braindump}\nGenre: {genre}\nStyle: {style}\n\nCharacters:";

/// The template of the synopsis prompt.
pub const SYNOPSIS_TEMPLATE: &'static str = "Generate a synopsis based on the following context. Provide concise but thorough summaries of the main plot, themes, and character arcs. The synopsis should reflect the genre, style, and overall tone of the book as described in the context. Focus on the core narrative and central conflicts while touching on the key thematic elements. Do not include placeholders or instructions in your response. \n\nTitle: {title}\nBraindump: {braindump}\nGenre: {genre}\nStyle: {style}\nCharacters: {characters}\n\nSynopsis:";

/// The template of the outline prompt.
pub const OUTLINE_TEMPLATE: &'static str = "Based on the following context, generate a comprehensive chapter-by-chapter outline. Each chapter should have a natural number of scenes based on its narrative needs - some chapters may need only 1-2 scenes to tell their story effectively, while others may require 3-5 scenes or more to properly develop their dramatic arc. Consider pacing, dramatic tension, and narrative flow when determining the number of scenes per chapter.\n\nTitle: {title}\nBraindump: {braindump}\nGenre: {genre}\nStyle: {style}\nCharacters: {characters}\nSynopsis: {synopsis}\n\nIMPORTANT: You MUST follow this EXACT format for the outline:\n\nChapter 1: [Title]\n[Chapter Description]\nScene 1: [Title]\n[Scene Description]\nScene 2: [Title]\n[Scene Description]\n\nChapter 2: [Title]\n[Chapter Description]\n[And so on...]\n\nEach chapter MUST start with the word 'Chapter' followed by a number and a colon (e.g., 'Chapter 1: Title'). Make sure to include at least 10 chapters in your outline.\n\nDo NOT include any additional formatting, headers, or explanatory text. Start directly with 'Chapter 1:' and end with the last scene description.\n\nOutline:";

/// The template of the chapter prompt.
pub const CHAPTER_TEMPLATE: &'static str = "Generate a detailed chapter outline based on the following context maintaining narrative progression and story continuity.\n\nTitle: {title}\nBraindump: {braindump}\nGenre: {genre}\nStyle: {style}\nCharacters: {characters}\nSynopsis: {synopsis}\nBook Outline: {book_outline}\nTemporary Summary: {temporary_summary}\n\nChapter Outline: Create a chapter outline that continues the story naturally from the previous context while advancing the plot according to the book outline. Focus on character development, thematic elements, and maintaining the established tone.";

/// The template of the scene prompt.
pub const SCENE_TEMPLATE: &'static str = "Create a scene outline using the following context, consider character interactions, setting details, and emotional resonance. The scene should naturally follow from previous scenes while advancing the chapter's narrative.\n\nBook Synopsis: {synopsis}\nChapter Outline: {chapter_outline}\nPrevious Scenes: {previous_scenes}\nTemporary Summary: {temporary_summary}\n\nScene Outline:";

/// The template of the temporary summary chapter prompt.
pub const TEMPORARY_SUMMARY_CHAPTER_TEMPLATE: &'static str = "Generate a concise but comprehensive summary of all previous context to maintain story continuity. This summary should incorporate the title, braindump, genre, style, characters, synopsis, book outline, and all previously generated chapter outlines. The summary should focus on maintaining narrative flow and ensuring all context is properly integrated.\n\nContext:\n{context}\n\nProvide a focused summary that captures all context and story progression so far, ending with 'Here is where we continue the story...':\n";

/// The template of the temporary summary scene prompt.
pub const TEMPORARY_SUMMARY_SCENE_TEMPLATE: &'static str = "Generate a scene-focused summary incorporating all previous context to maintain story continuity. This summary should include:\n- Title, braindump, genre, style\n- Book synopsis\n- Book outline\n- All chapter outlines up to and including the current chapter\n- All previously generated scenes from the current chapter\n\nFocus on the immediate context needed for the next scene while maintaining overall story coherence.\n\nContext:\n{context}\n\nProvide a focused summary that captures all context and scene progression so far, ending with 'Here is where we continue the story...':\n";

/// The template of the temporary summary content prompt.
pub const TEMPORARY_SUMMARY_CONTENT_TEMPLATE: &'static str = "Generate a content-focused summary incorporating all previous context to maintain story continuity. This summary should include:\n- Title, genre, style\n- Book synopsis\n- Book outline\n- Current chapter outline\n- Current scene outline\n- All previously generated content from this chapter\n\nFocus on the immediate narrative flow while maintaining overall story coherence.\n\nContext:\n{context}\n\nProvide a focused summary that captures all context and content progression so far, ending with 'Here is where we continue the story...':\n";

/// The template of the content prompt.
pub const CONTENT_TEMPLATE: &'static str = "Transform this scene outline into polished prose that captivates and resonates with readers. The writing should be realistic, whimsical, creative, clever, occasionally wryly humorous, and wise - most importantly, it should demonstrate deep understanding of human nature and masterful use of writing techniques.\n\nRemember this guidance on prose rhythm: 'This sentence has five words. Here are five more words. Five-word sentences are fine. But several together become monotonous. Listen to what is happening. The writing is getting boring. The sound of it drones. It's like a stuck record. The ear demands some variety. Now listen. I vary the sentence length, and I create music. Music. The writing sings. It has a pleasant rhythm, a lilt, a harmony. I use short sentences. And I use sentences of medium length. And sometimes, when I am certain the reader is rested, I will engage him with a sentence of considerable length, a sentence that burns with energy and builds with all the impetus of a crescendo, the roll of the drums, the crash of the cymbals—sounds that say listen to this, it is important.'\n\nStyle: {style}\nBook Synopsis: {synopsis}\nChapter Outline: {chapter_outline}\nScene Outline: {scene_outline}\nTemporary Summary: {temporary_summary}\nPrevious Content: {previous_content}\n\nWrite the complete scene:";

/// The template of the cover image prompt.
pub const COVER_IMAGE_TEMPLATE: &'static str = "Create a minimalist geometric SVG composition that abstractly captures the essence of \"{title}\", using precise mathematical patterns (circles, waves, or golden ratio arrangements) arranged in a visually harmonious grid structure. Incorporate 3-4 gradient colorways that reflect the emotional palette of this {genre} story, varying opacities to create depth, and strategic negative space to enhance visual rhythm. The design should feature subtle visual metaphors for key narrative elements—character arcs as intersecting paths, climactic moments as focal points, thematic tensions as balanced opposing forms—while maintaining a clean, contemporary aesthetic that stands alone as beautiful abstract art. Prioritize mathematical precision in placement, deliberate use of connecting lines or markers at pivotal points, and an overall composition that evokes the pacing and emotional resonance of the source material without being overtly representational.\n\nBook Context:\nTitle: {title}\nGenre: {genre}\nBraindump: {braindump}\nWriting Style: {style}\nSynopsis: {synopsis}\nBook Outline: {book_outline}";

/// The prompts of generation.
pub struct Prompts;

impl Prompts {
    /// The braindump prompt, filled by title.
    pub fn braindump() -> (r: PromptTemplate)
        ensures
            r.template@ == BRAINDUMP_TEMPLATE@,
            names_of(r.input_variables@) == seq!["title"@],
    {
        let v = names(&["title"]);
        assert(names_of(v@) =~= seq!["title"@]);
        PromptTemplate { template: owned(BRAINDUMP_TEMPLATE), input_variables: v }
    }

    /// The genre prompt, filled by title, braindump.
    pub fn genre() -> (r: PromptTemplate)
        ensures
            r.template@ == GENRE_TEMPLATE@,
            names_of(r.input_variables@) == seq!["title"@, "braindump"@],
    {
        let v = names(&["title", "braindump"]);
        assert(names_of(v@) =~= seq!["title"@, "braindump"@]);
        PromptTemplate { template: owned(GENRE_TEMPLATE), input_variables: v }
    }

    /// The style prompt, filled by title, braindump, genre.
    pub fn style() -> (r: PromptTemplate)
        ensures
            r.template@ == STYLE_TEMPLATE@,
            names_of(r.input_variables@) == seq!["title"@, "braindump"@, "genre"@],
    {
        let v = names(&["title", "braindump", "genre"]);
        assert(names_of(v@) =~= seq!["title"@, "braindump"@, "genre"@]);
        PromptTemplate { template: owned(STYLE_TEMPLATE), input_variables: v }
    }

    /// The characters prompt, filled by title, braindump, genre, style.
    pub fn characters() -> (r: PromptTemplate)
        ensures
            r.template@ == CHARACTERS_TEMPLATE@,
            names_of(r.input_variables@) == seq!["title"@, "braindump"@, "genre"@, "style"@],
    {
        let v = names(&["title", "braindump", "genre", "style"]);
        assert(names_of(v@) =~= seq!["title"@, "braindump"@, "genre"@, "style"@]);
        PromptTemplate { template: owned(CHARACTERS_TEMPLATE), input_variables: v }
    }

    /// The synopsis prompt, filled by title, braindump, genre, style, characters.
    pub fn synopsis() -> (r: PromptTemplate)
        ensures
            r.template@ == SYNOPSIS_TEMPLATE@,
            names_of(r.input_variables@) == seq!["title"@, "braindump"@, "genre"@, "style"@, "characters"@],
    {
        let v = names(&["title", "braindump", "genre", "style", "characters"]);
        assert(names_of(v@) =~= seq!["title"@, "braindump"@, "genre"@, "style"@, "characters"@]);
        PromptTemplate { template: owned(SYNOPSIS_TEMPLATE), input_variables: v }
    }

    /// The outline prompt, filled by title, braindump, genre, style, characters, synopsis.
    pub fn outline() -> (r: PromptTemplate)
        ensures
            r.template@ == OUTLINE_TEMPLATE@,
            names_of(r.input_variables@) == seq!["title"@, "braindump"@, "genre"@, "style"@, "characters"@, "synopsis"@],
    {
        let v = names(&["title", "braindump", "genre", "style", "characters", "synopsis"]);
        assert(names_of(v@) =~= seq!["title"@, "braindump"@, "genre"@, "style"@, "characters"@, "synopsis"@]);
        PromptTemplate { template: owned(OUTLINE_TEMPLATE), input_variables: v }
    }

    /// The chapter prompt, filled by title, braindump, genre, style, characters, synopsis, book_outline, temporary_summary.
    pub fn chapter() -> (r: PromptTemplate)
        ensures
            r.template@ == CHAPTER_TEMPLATE@,
            names_of(r.input_variables@) == seq!["title"@, "braindump"@, "genre"@, "style"@, "characters"@, "synopsis"@, "book_outline"@, "temporary_summary"@],
    {
        let v = names(&["title", "braindump", "genre", "style", "characters", "synopsis", "book_outline", "temporary_summary"]);
        assert(names_of(v@) =~= seq!["title"@, "braindump"@, "genre"@, "style"@, "characters"@, "synopsis"@, "book_outline"@, "temporary_summary"@]);
        PromptTemplate { template: owned(CHAPTER_TEMPLATE), input_variables: v }
    }

    /// The scene prompt, filled by synopsis, chapter_outline, previous_scenes, temporary_summary.
    pub fn scene() -> (r: PromptTemplate)
        ensures
            r.template@ == SCENE_TEMPLATE@,
            names_of(r.input_variables@) == seq!["synopsis"@, "chapter_outline"@, "previous_scenes"@, "temporary_summary"@],
    {
        let v = names(&["synopsis", "chapter_outline", "previous_scenes", "temporary_summary"]);
        assert(names_of(v@) =~= seq!["synopsis"@, "chapter_outline"@, "previous_scenes"@, "temporary_summary"@]);
        PromptTemplate { template: owned(SCENE_TEMPLATE), input_variables: v }
    }

    /// The temporary summary chapter prompt, filled by context.
    pub fn temporary_summary_chapter() -> (r: PromptTemplate)
        ensures
            r.template@ == TEMPORARY_SUMMARY_CHAPTER_TEMPLATE@,
            names_of(r.input_variables@) == seq!["context"@],
    {
        let v = names(&["context"]);
        assert(names_of(v@) =~= seq!["context"@]);
        PromptTemplate { template: owned(TEMPORARY_SUMMARY_CHAPTER_TEMPLATE), input_variables: v }
    }

    /// The temporary summary scene prompt, filled by context.
    pub fn temporary_summary_scene() -> (r: PromptTemplate)
        ensures
            r.template@ == TEMPORARY_SUMMARY_SCENE_TEMPLATE@,
            names_of(r.input_variables@) == seq!["context"@],
    {
        let v = names(&["context"]);
        assert(names_of(v@) =~= seq!["context"@]);
        PromptTemplate { template: owned(TEMPORARY_SUMMARY_SCENE_TEMPLATE), input_variables: v }
    }

    /// The temporary summary content prompt, filled by context.
    pub fn temporary_summary_content() -> (r: PromptTemplate)
        ensures
            r.template@ == TEMPORARY_SUMMARY_CONTENT_TEMPLATE@,
            names_of(r.input_variables@) == seq!["context"@],
    {
        let v = names(&["context"]);
        assert(names_of(v@) =~= seq!["context"@]);
        PromptTemplate { template: owned(TEMPORARY_SUMMARY_CONTENT_TEMPLATE), input_variables: v }
    }

    /// The content prompt, filled by style, synopsis, chapter_outline, scene_outline, temporary_summary, previous_content.
    pub fn content() -> (r: PromptTemplate)
        ensures
            r.template@ == CONTENT_TEMPLATE@,
            names_of(r.input_variables@) == seq!["style"@, "synopsis"@, "chapter_outline"@, "scene_outline"@, "temporary_summary"@, "previous_content"@],
    {
        let v = names(&["style", "synopsis", "chapter_outline", "scene_outline", "temporary_summary", "previous_content"]);
        assert(names_of(v@) =~= seq!["style"@, "synopsis"@, "chapter_outline"@, "scene_outline"@, "temporary_summary"@, "previous_content"@]);
        PromptTemplate { template: owned(CONTENT_TEMPLATE), input_variables: v }
    }

    /// The cover image prompt, filled by title, genre, braindump, style, synopsis, book_outline.
    pub fn cover_image() -> (r: PromptTemplate)
        ensures
            r.template@ == COVER_IMAGE_TEMPLATE@,
            names_of(r.input_variables@) == seq!["title"@, "genre"@, "braindump"@, "style"@, "synopsis"@, "book_outline"@],
    {
        let v = names(&["title", "genre", "braindump", "style", "synopsis", "book_outline"]);
        assert(names_of(v@) =~= seq!["title"@, "genre"@, "braindump"@, "style"@, "synopsis"@, "book_outline"@]);
        PromptTemplate { template: owned(COVER_IMAGE_TEMPLATE), input_variables: v }
    }
}


/// The place of a value in a template: its name in braces.
pub open spec fn placeholder(name: Seq<char>) -> Seq<char> {
    "{"@ + name + "}"@
}

/// A template with the first `k` values put in, one after the other: each
/// "{name}" replaced by its value.
pub open spec fn filled(template: Seq<char>, values: Seq<(Seq<char>, Seq<char>)>, k: int) -> Seq<char>
    decreases k,
{
    if k <= 0 || k > values.len() {
        template
    } else {
        replace(filled(template, values, k - 1), placeholder(values[k - 1].0), values[k - 1].1)
    }
}

/// The names and values of a list of pairs.
pub open spec fn pairs_view(v: Seq<(String, String)>) -> Seq<(Seq<char>, Seq<char>)> {
    v.map_values(|p: (String, String)| (p.0@, p.1@))
}

impl PromptTemplate {
    /// The prompt with the given values put in: for each (name, value) in turn,
    /// every "{name}" replaced by the value.
    pub fn format(&self, values: &Vec<(String, String)>) -> (r: String)
        ensures
            r@ == filled(self.template@, pairs_view(values@), values@.len() as int),
    {
        let ghost vs = pairs_view(values@);
        let mut out = chars_of(self.template.as_str());
        let mut i: usize = 0;
        while i < values.len()
            invariant
                i <= values@.len(),
                vs == pairs_view(values@),
                out@ == filled(self.template@, vs, i as int),
            decreases values@.len() - i,
        {
            let mut key = chars_of("{");
            push_str(&mut key, values[i].0.as_str());
            push_str(&mut key, "}");
            proof {
                reveal_strlit("{");
            }
            assert(key@.len() > 0);
            assert(vs[i as int] == (values@[i as int].0@, values@[i as int].1@));
            out = replace_exec(&out, &key, &chars_of(values[i].1.as_str()));
            i = i + 1;
        }
        to_string(&out)
    }
}

} // verus!
