//! The book's cover: the SVG picked out of a model's answer, and the plain cover
//! drawn when no model can draw one.
use vstd::prelude::*;
use crate::text::{
    chars_of, find, find_exec, lemma_find_from_bounds, matches_at, push_decimal, push_str,
    slice_chars, to_string, trim, trim_exec, decimal,
};

verus! {

/// The SVG in a model's answer: from the first "<svg" through the first "</svg>"
/// after it; else the trimmed text of the first "```svg" code block; else none.
pub open spec fn svg_in(r: Seq<char>) -> Option<Seq<char>> {
    let tagged = match find(r, "<svg"@) {
        Some(start) => match find(r.subrange(start, r.len() as int), "</svg>"@) {
            Some(end) => Some(r.subrange(start, start + end + 6)),
            None => None,
        },
        None => None,
    };
    match tagged {
        Some(t) => Some(t),
        None => match find(r, "```svg"@) {
            Some(start) => {
                let body = r.subrange(start + 6, r.len() as int);
                match find(body, "```"@) {
                    Some(end) => Some(trim(body.subrange(0, end))),
                    None => None,
                }
            },
            None => None,
        },
    }
}

/// Picks the SVG out of a model's answer.
pub fn extract_svg_from_response(response: &str) -> (r: Option<String>)
    ensures
        match svg_in(response@) {
            Some(t) => r matches Some(x) && x@ == t,
            None => r is None,
        },
{
    proof {
        reveal_strlit("<svg");
        reveal_strlit("</svg>");
        reveal_strlit("```svg");
        reveal_strlit("```");
    }
    let s = chars_of(response);
    let open = chars_of("<svg");
    proof {
        lemma_find_from_bounds(s@, open@, 0);
    }
    if let Some(start) = find_exec(&s, &open) {
        assert(matches_at(s@, open@, start as int));
        let rest = slice_chars(&s, start, s.len());
        let close = chars_of("</svg>");
        proof {
            lemma_find_from_bounds(rest@, close@, 0);
        }
        if let Some(end) = find_exec(&rest, &close) {
            assert(matches_at(rest@, close@, end as int));
            assert(end + 6 <= rest.len());
            return Some(to_string(&slice_chars(&s, start, start + end + 6)));
        }
    }
    let fence = chars_of("```svg");
    proof {
        lemma_find_from_bounds(s@, fence@, 0);
    }
    if let Some(start) = find_exec(&s, &fence) {
        assert(matches_at(s@, fence@, start as int));
        let body = slice_chars(&s, start + 6, s.len());
        let close = chars_of("```");
        proof {
            lemma_find_from_bounds(body@, close@, 0);
        }
        if let Some(end) = find_exec(&body, &close) {
            assert(matches_at(body@, close@, end as int));
            return Some(to_string(&trim_exec(&slice_chars(&body, 0, end))));
        }
    }
    None
}

/// The sum of the code points of a text.
pub open spec fn code_point_sum(s: Seq<char>) -> int
    decreases s.len(),
{
    if s.len() == 0 {
        0
    } else {
        code_point_sum(s.drop_last()) + (s.last() as u32)
    }
}

/// The colour that a text gives: channels from the sum `h` of its code points,
/// each kept between 55 and 254 so that it is not too dark.
pub open spec fn color_text(h: nat) -> Seq<char> {
    "rgb("@ + decimal(h % 200 + 55) + ", "@ + decimal((h / 256) % 200 + 55) + ", "@ + decimal((h / 65536) % 200 + 55) + ")"@
}

proof fn lemma_code_point_sum_grows(s: Seq<char>, i: int)
    requires
        0 <= i <= s.len(),
    ensures
        0 <= code_point_sum(s.take(i)) <= code_point_sum(s),
    decreases s.len() - i,
{
    if i < s.len() {
        lemma_code_point_sum_grows(s, i + 1);
        assert(s.take(i + 1).drop_last() =~= s.take(i));
    } else {
        assert(s.take(i) =~= s);
    }
    lemma_code_point_sum_nonneg(s.take(i));
}

proof fn lemma_code_point_sum_nonneg(s: Seq<char>)
    ensures
        code_point_sum(s) >= 0,
    decreases s.len(),
{
    if s.len() > 0 {
        lemma_code_point_sum_nonneg(s.drop_last());
    }
}

/// A colour made from a text, as "rgb(r, g, b)".
pub fn generate_color_from_text(text: &str) -> (r: String)
    requires
        code_point_sum(text@) <= u32::MAX,
    ensures
        r@ == color_text(code_point_sum(text@) as nat),
{
    let s = chars_of(text);
    let mut hash: u32 = 0;
    let mut i: usize = 0;
    while i < s.len()
        invariant
            i <= s@.len(),
            s@ == text@,
            hash == code_point_sum(s@.take(i as int)),
            code_point_sum(s@) <= u32::MAX,
        decreases s@.len() - i,
    {
        proof {
            assert(s@.take(i + 1).drop_last() =~= s@.take(i as int));
            lemma_code_point_sum_grows(s@, i + 1);
        }
        hash = hash + s[i] as u32;
        i = i + 1;
    }
    assert(s@.take(i as int) =~= s@);
    let red = (hash % 200) + 55;
    let green = ((hash / 256) % 200) + 55;
    let blue = ((hash / 65536) % 200) + 55;
    let mut out = chars_of("rgb(");
    push_decimal(&mut out, red as usize);
    push_str(&mut out, ", ");
    push_decimal(&mut out, green as usize);
    push_str(&mut out, ", ");
    push_decimal(&mut out, blue as usize);
    push_str(&mut out, ")");
    to_string(&out)
}

/// The plain cover: a square with a diagonal gradient between the two colours, the
/// title, and "A Novel" under it.
pub open spec fn fallback_svg(color1: Seq<char>, color2: Seq<char>, title: Seq<char>) -> Seq<char> {
    "<svg xmlns=\"http://www.w3.org/2000/svg\" width=\"1024\" height=\"1024\">\n        <defs>\n            <linearGradient id=\"grad1\" x1=\"0%\" y1=\"0%\" x2=\"100%\" y2=\"100%\">\n                <stop offset=\"0%\" style=\"stop-color:"@
        + color1 + ";stop-opacity:1\" />\n                <stop offset=\"100%\" style=\"stop-color:"@ + color2
        + ";stop-opacity:1\" />\n            </linearGradient>\n        </defs>\n        <rect width=\"1024\" height=\"1024\" fill=\"url(#grad1)\" />\n        <text x=\"512\" y=\"480\" font-family=\"Arial\" font-size=\"60\" text-anchor=\"middle\" fill=\"white\">"@
        + title + "</text>\n        <text x=\"512\" y=\"560\" font-family=\"Arial\" font-size=\"40\" text-anchor=\"middle\" fill=\"white\">A Novel</text>\n    </svg>"@
}

/// The plain cover of a book with this title and genre: its colours come from the
/// title and from the genre.
pub fn fallback_cover_svg(title: &str, genre: &str) -> (r: String)
    requires
        code_point_sum(title@) <= u32::MAX,
        code_point_sum(genre@) <= u32::MAX,
    ensures
        r@ == fallback_svg(
            color_text(code_point_sum(title@) as nat),
            color_text(code_point_sum(genre@) as nat),
            title@,
        ),
{
    let color1 = generate_color_from_text(title);
    let color2 = generate_color_from_text(genre);
    let mut out = chars_of("<svg xmlns=\"http://www.w3.org/2000/svg\" width=\"1024\" height=\"1024\">\n        <defs>\n            <linearGradient id=\"grad1\" x1=\"0%\" y1=\"0%\" x2=\"100%\" y2=\"100%\">\n                <stop offset=\"0%\" style=\"stop-color:");
    push_str(&mut out, color1.as_str());
    push_str(&mut out, ";stop-opacity:1\" />\n                <stop offset=\"100%\" style=\"stop-color:");
    push_str(&mut out, color2.as_str());
    push_str(&mut out, ";stop-opacity:1\" />\n            </linearGradient>\n        </defs>\n        <rect width=\"1024\" height=\"1024\" fill=\"url(#grad1)\" />\n        <text x=\"512\" y=\"480\" font-family=\"Arial\" font-size=\"60\" text-anchor=\"middle\" fill=\"white\">");
    push_str(&mut out, title);
    push_str(&mut out, "</text>\n        <text x=\"512\" y=\"560\" font-family=\"Arial\" font-size=\"40\" text-anchor=\"middle\" fill=\"white\">A Novel</text>\n    </svg>");
    to_string(&out)
}

} // verus!
