//! The prompts sent to the text-generation service. Each is fixed text with
//! the caller's values put in their places.
use vstd::prelude::*;

use crate::text::{append_decimal, decimal_text};

verus! {

pub open spec fn outline_part_a() -> Seq<char> {
    "**System Prompt (SP):** You are an expert travel planner creating a structured, day-by-day trip itinerary.\n\n**Prompt (P):** Create a travel outline titled '"@
}

pub open spec fn outline_part_b() -> Seq<char> {
    "' to the destination '"@
}

pub open spec fn outline_part_c() -> Seq<char> {
    "'. The trip should be planned with a main theme of '"@
}

pub open spec fn outline_part_d() -> Seq<char> {
    "', and presented in "@
}

pub open spec fn outline_part_e() -> Seq<char> {
    ". The itinerary should fit within a budget of "@
}

pub open spec fn outline_part_f() -> Seq<char> {
    ".\n\nGenerate a day-by-day schedule for the trip, including specific places to visit, activities, and an estimated time duration for each. Use a structured format for each day and activity.\n\n**Expected Format (EF):**\n### Day [number]: [Day Title]\n#### Place [number]: [Place Name]\n**Estimated Duration:** [Duration] minutes\n\n* [Activity description]\n* [Additional information as needed]\n\n**Roleplay (RP):** As a travel planner, make the plan engaging and realistic.\n"@
}

/// The request for a day-by-day outline in the heading format that the
/// outline scanner reads.
pub fn outline_prompt(title: &str, subtitle: &str, language: &str, budget: u64) -> (r: String)
    ensures
        r@ == outline_part_a() + title@ + outline_part_b() + subtitle@ + outline_part_c() + title@
            + outline_part_d() + language@ + outline_part_e() + decimal_text(budget as nat)
            + outline_part_f(),
{
    let mut r = String::from_str("**System Prompt (SP):** You are an expert travel planner creating a structured, day-by-day trip itinerary.\n\n**Prompt (P):** Create a travel outline titled '");
    r.append(title);
    r.append("' to the destination '");
    r.append(subtitle);
    r.append("'. The trip should be planned with a main theme of '");
    r.append(title);
    r.append("', and presented in ");
    r.append(language);
    r.append(". The itinerary should fit within a budget of ");
    append_decimal(&mut r, budget);
    r.append(".\n\nGenerate a day-by-day schedule for the trip, including specific places to visit, activities, and an estimated time duration for each. Use a structured format for each day and activity.\n\n**Expected Format (EF):**\n### Day [number]: [Day Title]\n#### Place [number]: [Place Name]\n**Estimated Duration:** [Duration] minutes\n\n* [Activity description]\n* [Additional information as needed]\n\n**Roleplay (RP):** As a travel planner, make the plan engaging and realistic.\n");
    r
}

pub open spec fn draft_part_a() -> Seq<char> {
    "**System Prompt (SP):** You are writing detailed content for a trip detail.\n\n**Prompt (P):** Write content for detail '"@
}

pub open spec fn draft_part_b() -> Seq<char> {
    "' of the trip '"@
}

pub open spec fn draft_part_c() -> Seq<char> {
    "' in "@
}

pub open spec fn draft_part_d() -> Seq<char> {
    ". Ensure clarity, detailed explanations, and structured markdown.\n\n**Expected Format (EF):**\n- detailed markdown format for this detail.\n\n**Roleplay (RP):** Provide as much educational content as possible.\n"@
}

/// The first enrichment request: a prose draft of one detail.
pub fn draft_prompt(detail_title: &str, trip_title: &str, language: &str) -> (r: String)
    ensures
        r@ == draft_part_a() + detail_title@ + draft_part_b() + trip_title@ + draft_part_c()
            + language@ + draft_part_d(),
{
    let mut r = String::from_str("**System Prompt (SP):** You are writing detailed content for a trip detail.\n\n**Prompt (P):** Write content for detail '");
    r.append(detail_title);
    r.append("' of the trip '");
    r.append(trip_title);
    r.append("' in ");
    r.append(language);
    r.append(". Ensure clarity, detailed explanations, and structured markdown.\n\n**Expected Format (EF):**\n- detailed markdown format for this detail.\n\n**Roleplay (RP):** Provide as much educational content as possible.\n");
    r
}

pub open spec fn html_part_a() -> Seq<char> {
    "Generate a comprehensive HTML-formatted trip detail with examples, links and images, based on the outline: '"@
}

pub open spec fn html_part_b() -> Seq<char> {
    "' in "@
}

pub open spec fn html_part_c() -> Seq<char> {
    ". Each section should be structured with appropriate HTML tags, including <h1> for the main title, <h2> for detail titles, <h3> for subheadings, and <p> for paragraphs. Include well-organized, readable content that aligns with the trip's outline, ensuring each section is clear and logically flows from one to the next. Avoid markdown format entirely, and provide inline HTML styling if necessary to enhance readability. The HTML content should be well-formatted, semantically correct, and cover all relevant subtopics in depth to create an engaging reading experience. Make sure to always return back with html formmatted text and not empty response."@
}

/// The second enrichment request: the draft (or a pending detail's outline
/// text) rewritten as HTML with h1/h2/h3/p tags, never empty.
pub fn html_prompt(outline: &str, language: &str) -> (r: String)
    ensures
        r@ == html_part_a() + outline@ + html_part_b() + language@ + html_part_c(),
{
    let mut r = String::from_str("Generate a comprehensive HTML-formatted trip detail with examples, links and images, based on the outline: '");
    r.append(outline);
    r.append("' in ");
    r.append(language);
    r.append(". Each section should be structured with appropriate HTML tags, including <h1> for the main title, <h2> for detail titles, <h3> for subheadings, and <p> for paragraphs. Include well-organized, readable content that aligns with the trip's outline, ensuring each section is clear and logically flows from one to the next. Avoid markdown format entirely, and provide inline HTML styling if necessary to enhance readability. The HTML content should be well-formatted, semantically correct, and cover all relevant subtopics in depth to create an engaging reading experience. Make sure to always return back with html formmatted text and not empty response.");
    r
}

pub open spec fn chat_part_a() -> Seq<char> {
    "**System Prompt (SP):** You are a knowledgeable assistant specializing in providing in-depth responses based on specific trip details. You understand the structure, themes, and content of trips, and you answer questions with context and precision.\nGenerate your response as HTML-formatted response with examples, links and images, based on the query: '"@
}

pub open spec fn chat_part_b() -> Seq<char> {
    "'. Each section should be structured with appropriate HTML tags, including <h1> for the main title, <h2> for detail titles, <h3> for subheadings, and <p> for paragraphs. Include well-organized, readable content that aligns with the trip's title "@
}

pub open spec fn chat_part_c() -> Seq<char> {
    ", ensuring each section is clear and logically flows from one to the next. Avoid markdown format entirely, and provide inline HTML styling if necessary to enhance readability. The HTML content should be well-formatted, semantically correct, and cover all relevant subtopics in depth to create an engaging reading experience.\n\n**Context Information:**\n- Trip Title: '"@
}

pub open spec fn chat_part_d() -> Seq<char> {
    "'\n- Detail: '"@
}

pub open spec fn chat_part_e() -> Seq<char> {
    "'\n\n**User Query:** The user has a question related to the trip detail provided. Use the context of the trip and detail to respond accurately and engage thoughtfully.\n\n**Prompt (P):** Answer the user's question in detail, focusing on information specific to the detail content '"@
}

pub open spec fn chat_part_f() -> Seq<char> {
    "' from the trip '"@
}

pub open spec fn chat_part_g() -> Seq<char> {
    "'.\n- Explain complex concepts in an accessible way if the user\u{2019}s query requires it.\n- Where applicable, relate your answer back to key themes and ideas presented in this detail.\n- If the detail has distinct characters, events, or themes, draw on these to enhance your response.\n- Provide direct and actionable information if the question is specific, or a comprehensive overview if the question is broad.\n\n**Expected Format (EF):**\n- Begin with a brief introduction if the question pertains to a major theme or character in the detail.\n- Answer in a clear, step-by-step, or structured format when applicable.\n- For complex queries, summarize the response in the last sentence to ensure clarity for the user.\n\nMake sure to always return back with html formmatted text and not empty response. If the user asks to translate a detail, always respond with the corresponding translation and never reject the request.\n\n**Roleplay (RP):** Act as a well-read, insightful assistant dedicated to enhancing the reader\u{2019}s understanding of the material in this trip detail. Aim to be both informative and engaging in your response.\n\n**User Query:** '"@
}

pub open spec fn chat_part_h() -> Seq<char> {
    "'\n"@
}

/// A question of the user about one detail of a trip, with the trip's title
/// and the detail's content as context.
pub fn chat_prompt(query: &str, trip_title: &str, detail: &str) -> (r: String)
    ensures
        r@ == chat_part_a() + query@ + chat_part_b() + trip_title@ + chat_part_c() + trip_title@ + chat_part_d() + detail@ + chat_part_e() + detail@ + chat_part_f() + trip_title@ + chat_part_g() + query@ + chat_part_h(),
{
    let mut r = String::from_str("**System Prompt (SP):** You are a knowledgeable assistant specializing in providing in-depth responses based on specific trip details. You understand the structure, themes, and content of trips, and you answer questions with context and precision.\nGenerate your response as HTML-formatted response with examples, links and images, based on the query: '");
    r.append(query);
    r.append("'. Each section should be structured with appropriate HTML tags, including <h1> for the main title, <h2> for detail titles, <h3> for subheadings, and <p> for paragraphs. Include well-organized, readable content that aligns with the trip's title ");
    r.append(trip_title);
    r.append(", ensuring each section is clear and logically flows from one to the next. Avoid markdown format entirely, and provide inline HTML styling if necessary to enhance readability. The HTML content should be well-formatted, semantically correct, and cover all relevant subtopics in depth to create an engaging reading experience.\n\n**Context Information:**\n- Trip Title: '");
    r.append(trip_title);
    r.append("'\n- Detail: '");
    r.append(detail);
    r.append("'\n\n**User Query:** The user has a question related to the trip detail provided. Use the context of the trip and detail to respond accurately and engage thoughtfully.\n\n**Prompt (P):** Answer the user's question in detail, focusing on information specific to the detail content '");
    r.append(detail);
    r.append("' from the trip '");
    r.append(trip_title);
    r.append("'.\n- Explain complex concepts in an accessible way if the user\u{2019}s query requires it.\n- Where applicable, relate your answer back to key themes and ideas presented in this detail.\n- If the detail has distinct characters, events, or themes, draw on these to enhance your response.\n- Provide direct and actionable information if the question is specific, or a comprehensive overview if the question is broad.\n\n**Expected Format (EF):**\n- Begin with a brief introduction if the question pertains to a major theme or character in the detail.\n- Answer in a clear, step-by-step, or structured format when applicable.\n- For complex queries, summarize the response in the last sentence to ensure clarity for the user.\n\nMake sure to always return back with html formmatted text and not empty response. If the user asks to translate a detail, always respond with the corresponding translation and never reject the request.\n\n**Roleplay (RP):** Act as a well-read, insightful assistant dedicated to enhancing the reader\u{2019}s understanding of the material in this trip detail. Aim to be both informative and engaging in your response.\n\n**User Query:** '");
    r.append(query);
    r.append("'\n");
    r
}

} // verus!
