//! Prompt templates for note summaries: overviews, action items, key
//! decisions and custom requests, in single-pass, chunked and merge
//! variants.  Every builder's contract spells out the exact text it
//! hands the language model.

use vstd::prelude::*;
use vstd::string::StrSliceExecFns;
use vstd::string::StringExecFns;

use crate::paths::dec_str;
use crate::text::is_blank;

verus! {

/// Maximum content length before chunking is applied, in characters:
/// room is left for the prompt template and the response.
pub const MAX_CONTENT_LENGTH: usize = 10000;

/// The optional user-notes section: empty where there are no visible
/// notes.
pub open spec fn notes_section_spec(notes: Option<Seq<char>>) -> Seq<char> {
    match notes {
        Some(n) => if !is_blank(n) {
            "\nUSER NOTES:\n"@ + n + "\n\n"@
        } else {
            Seq::empty()
        },
        None => Seq::empty(),
    }
}

/// The suffix naming the user notes in a prompt header, present exactly
/// where there are visible notes.
pub open spec fn and_notes_spec(notes: Option<Seq<char>>) -> Seq<char> {
    match notes {
        Some(n) => if !is_blank(n) {
            " and user notes"@
        } else {
            Seq::empty()
        },
        None => Seq::empty(),
    }
}

/// The enumerated section blocks of a merge prompt, separated by blank
/// lines: `--- Part k ---` above each summary.
pub open spec fn parts_spec(sums: Seq<Seq<char>>, i: int) -> Seq<char>
    decreases i,
{
    if i <= 0 {
        Seq::empty()
    } else if i == 1 {
        part_block(sums[0], 1)
    } else {
        parts_spec(sums, i - 1) + "\n\n"@ + part_block(sums[i - 1], i)
    }
}

/// One enumerated section block.
pub open spec fn part_block(s: Seq<char>, k: int) -> Seq<char> {
    "--- Part "@ + dec_str(k) + " ---\n"@ + s
}

/// Prompt builders for note summaries.
pub struct SummaryPrompts;

impl SummaryPrompts {
    /// The user-notes section, where any visible notes exist.
    pub fn format_notes_section(notes: Option<&str>) -> (r: String)
        ensures
            r@ =~= notes_section_spec(match notes {
                Some(n) => Some(n@),
                None => None,
            }),
    {
        match notes {
            Some(n) => {
                if !crate::text::is_blank_str(n) {
                    let mut s = "\nUSER NOTES:\n".to_owned();
                    s.append(n);
                    s.append("\n\n");
                    s
                } else {
                    String::new()
                }
            },
            None => String::new(),
        }
    }

    /// The header suffix naming the user notes, where any visible notes
    /// exist.
    fn and_notes(notes: Option<&str>) -> (r: &'static str)
        ensures
            r@ =~= and_notes_spec(match notes {
                Some(n) => Some(n@),
                None => None,
            }),
    {
        match notes {
            Some(n) => {
                if !crate::text::is_blank_str(n) {
                    " and user notes"
                } else {
                    proof {
                        reveal_strlit("");
                    }
                    ""
                }
            },
            None => {
                proof {
                    reveal_strlit("");
                }
                ""
            },
        }
    }

    /// An overview summary from user notes alone.
    pub fn overview_notes_only(notes: &str) -> (r: String)
        ensures
            r@ =~= "You are a professional note summarizer. Analyze the following user notes and provide a clear, concise summary in markdown format.\n\nUSER NOTES:\n"@
                + notes@
                + "\n\nProvide a professional summary that includes:\n- Main topics covered\n- Key points and conclusions\n- Overall outcome or insights\n\nRules:\n- Use markdown formatting (headings, bullet points, bold for emphasis)\n- Be concise and professional\n- Do NOT use emojis\n- Focus on factual information\n- Use clear, formal language\n\nSUMMARY:"@,
    {
        let mut s =
            "You are a professional note summarizer. Analyze the following user notes and provide a clear, concise summary in markdown format.\n\nUSER NOTES:\n".to_owned();
        s.append(notes);
        s.append(
            "\n\nProvide a professional summary that includes:\n- Main topics covered\n- Key points and conclusions\n- Overall outcome or insights\n\nRules:\n- Use markdown formatting (headings, bullet points, bold for emphasis)\n- Be concise and professional\n- Do NOT use emojis\n- Focus on factual information\n- Use clear, formal language\n\nSUMMARY:",
        );
        s
    }

    /// Action items from user notes alone.
    pub fn action_items_notes_only(notes: &str) -> (r: String)
        ensures
            r@ =~= "You are a professional note analyst. Extract all action items from the following user notes.\n\nUSER NOTES:\n"@
                + notes@
                + "\n\nFor each action item, identify:\n- The specific task to be completed\n- Responsible person (if mentioned)\n- Deadline or timeline (if mentioned)\n\nRules:\n- Use markdown formatting with numbered lists\n- Be specific and actionable\n- Do NOT use emojis\n- If no action items are found, state \"No action items identified.\"\n- Use professional, clear language\n\nACTION ITEMS:"@,
    {
        let mut s =
            "You are a professional note analyst. Extract all action items from the following user notes.\n\nUSER NOTES:\n".to_owned();
        s.append(notes);
        s.append(
            "\n\nFor each action item, identify:\n- The specific task to be completed\n- Responsible person (if mentioned)\n- Deadline or timeline (if mentioned)\n\nRules:\n- Use markdown formatting with numbered lists\n- Be specific and actionable\n- Do NOT use emojis\n- If no action items are found, state \"No action items identified.\"\n- Use professional, clear language\n\nACTION ITEMS:",
        );
        s
    }

    /// Key decisions from user notes alone.
    pub fn key_decisions_notes_only(notes: &str) -> (r: String)
        ensures
            r@ =~= "You are a professional note analyst. Extract all key decisions from the following user notes.\n\nUSER NOTES:\n"@
                + notes@
                + "\n\nFor each decision, include:\n- What was decided\n- Context or reasoning (if provided)\n- Who made or approved the decision (if mentioned)\n\nRules:\n- Use markdown formatting with numbered lists\n- Be specific and clear\n- Do NOT use emojis\n- If no decisions were made, state \"No key decisions identified.\"\n- Use professional, formal language\n\nKEY DECISIONS:"@,
    {
        let mut s =
            "You are a professional note analyst. Extract all key decisions from the following user notes.\n\nUSER NOTES:\n".to_owned();
        s.append(notes);
        s.append(
            "\n\nFor each decision, include:\n- What was decided\n- Context or reasoning (if provided)\n- Who made or approved the decision (if mentioned)\n\nRules:\n- Use markdown formatting with numbered lists\n- Be specific and clear\n- Do NOT use emojis\n- If no decisions were made, state \"No key decisions identified.\"\n- Use professional, formal language\n\nKEY DECISIONS:",
        );
        s
    }

    /// A custom analysis from user notes alone.
    pub fn custom_notes_only(notes: &str, user_prompt: &str) -> (r: String)
        ensures
            r@ =~= "You are a professional note analyst. Analyze the following user notes based on the user's request.\n\nUSER NOTES:\n"@
                + notes@ + "\n\nUSER REQUEST:\n"@ + user_prompt@
                + "\n\nRules:\n- Use markdown formatting where appropriate\n- Be professional and concise\n- Do NOT use emojis\n- Directly address the user's request\n- Use clear, formal language\n\nRESPONSE:"@,
    {
        let mut s =
            "You are a professional note analyst. Analyze the following user notes based on the user's request.\n\nUSER NOTES:\n".to_owned();
        s.append(notes);
        s.append("\n\nUSER REQUEST:\n");
        s.append(user_prompt);
        s.append(
            "\n\nRules:\n- Use markdown formatting where appropriate\n- Be professional and concise\n- Do NOT use emojis\n- Directly address the user's request\n- Use clear, formal language\n\nRESPONSE:",
        );
        s
    }

    /// The overview summary of a transcript, with any user notes before
    /// it.
    pub fn overview(transcript: &str, notes: Option<&str>) -> (r: String)
        ensures
            r@ =~= "Summarize this transcript in markdown. Only include what was actually said. If brief, keep summary brief.\nIMPORTANT: The summary MUST be in ITALIAN language.\n\n"@
                + notes_section_spec(match notes {
                    Some(n) => Some(n@),
                    None => None,
                }) + transcript@ + "\n\nSummary:"@,
    {
        let section = Self::format_notes_section(notes);
        let mut s =
            "Summarize this transcript in markdown. Only include what was actually said. If brief, keep summary brief.\nIMPORTANT: The summary MUST be in ITALIAN language.\n\n".to_owned();
        s.append(section.as_str());
        s.append(transcript);
        s.append("\n\nSummary:");
        s
    }

    /// Action items from a transcript, with any user notes before it.
    pub fn action_items(transcript: &str, notes: Option<&str>) -> (r: String)
        ensures
            r@ =~= "You are a professional note analyst. Extract all action items from the following transcript"@
                + and_notes_spec(match notes {
                    Some(n) => Some(n@),
                    None => None,
                }) + ".\n"@ + notes_section_spec(match notes {
                    Some(n) => Some(n@),
                    None => None,
                }) + "TRANSCRIPT:\n"@ + transcript@
                + "\n\nFor each action item, identify:\n- The specific task to be completed\n- Responsible person (if mentioned)\n- Deadline or timeline (if mentioned)\n\nRules:\n- ONLY extract action items explicitly mentioned in the transcript\n- Do NOT infer or fabricate action items that are not clearly stated\n- Use markdown formatting with numbered lists\n- Be specific and actionable\n- Do NOT use emojis\n- If no action items are found or the transcript is too brief, state \"Nessuna azione identificata.\"\n- Use professional, clear language\n- If user notes mention action items or tasks, include them\n- IMPORTANT: Provide the response in ITALIAN language.\n\nACTION ITEMS:"@,
    {
        let section = Self::format_notes_section(notes);
        let suffix = Self::and_notes(notes);
        let mut s =
            "You are a professional note analyst. Extract all action items from the following transcript".to_owned();
        s.append(suffix);
        s.append(".\n");
        s.append(section.as_str());
        s.append("TRANSCRIPT:\n");
        s.append(transcript);
        s.append(
            "\n\nFor each action item, identify:\n- The specific task to be completed\n- Responsible person (if mentioned)\n- Deadline or timeline (if mentioned)\n\nRules:\n- ONLY extract action items explicitly mentioned in the transcript\n- Do NOT infer or fabricate action items that are not clearly stated\n- Use markdown formatting with numbered lists\n- Be specific and actionable\n- Do NOT use emojis\n- If no action items are found or the transcript is too brief, state \"Nessuna azione identificata.\"\n- Use professional, clear language\n- If user notes mention action items or tasks, include them\n- IMPORTANT: Provide the response in ITALIAN language.\n\nACTION ITEMS:",
        );
        s
    }

    /// Key decisions from a transcript, with any user notes before it.
    pub fn key_decisions(transcript: &str, notes: Option<&str>) -> (r: String)
        ensures
            r@ =~= "You are a professional note analyst. Extract all key decisions from the following transcript"@
                + and_notes_spec(match notes {
                    Some(n) => Some(n@),
                    None => None,
                }) + ".\n"@ + notes_section_spec(match notes {
                    Some(n) => Some(n@),
                    None => None,
                }) + "TRANSCRIPT:\n"@ + transcript@
                + "\n\nFor each decision, include:\n- What was decided\n- Context or reasoning (if provided)\n- Who made or approved the decision (if mentioned)\n\nRules:\n- ONLY extract decisions explicitly mentioned in the transcript\n- Do NOT infer or fabricate decisions that are not clearly stated\n- Use markdown formatting with numbered lists\n- Be specific and clear\n- Do NOT use emojis\n- If no decisions were made or the transcript is too brief, state \"Nessuna decisione chiave identificata.\"\n- Use professional, formal language\n- If user notes mention decisions, include them\n- IMPORTANT: Provide the response in ITALIAN language.\n\nKEY DECISIONS:"@,
    {
        let section = Self::format_notes_section(notes);
        let suffix = Self::and_notes(notes);
        let mut s =
            "You are a professional note analyst. Extract all key decisions from the following transcript".to_owned();
        s.append(suffix);
        s.append(".\n");
        s.append(section.as_str());
        s.append("TRANSCRIPT:\n");
        s.append(transcript);
        s.append(
            "\n\nFor each decision, include:\n- What was decided\n- Context or reasoning (if provided)\n- Who made or approved the decision (if mentioned)\n\nRules:\n- ONLY extract decisions explicitly mentioned in the transcript\n- Do NOT infer or fabricate decisions that are not clearly stated\n- Use markdown formatting with numbered lists\n- Be specific and clear\n- Do NOT use emojis\n- If no decisions were made or the transcript is too brief, state \"Nessuna decisione chiave identificata.\"\n- Use professional, formal language\n- If user notes mention decisions, include them\n- IMPORTANT: Provide the response in ITALIAN language.\n\nKEY DECISIONS:",
        );
        s
    }

    /// A short title for a transcript.
    pub fn title(transcript: &str) -> (r: String)
        ensures
            r@ =~= "Write a 2-6 word title for this transcript. Use specific nouns, not generic words. Output only the title.\nIMPORTANT: The title MUST be in ITALIAN language.\n\n"@
                + transcript@ + "\n\nTitle:"@,
    {
        let mut s =
            "Write a 2-6 word title for this transcript. Use specific nouns, not generic words. Output only the title.\nIMPORTANT: The title MUST be in ITALIAN language.\n\n".to_owned();
        s.append(transcript);
        s.append("\n\nTitle:");
        s
    }

    /// A short title for a summary.
    pub fn title_from_summary(summary: &str) -> (r: String)
        ensures
            r@ =~= "Write a 2-6 word title for this summary. Use specific nouns, not generic words. Output only the title.\nIMPORTANT: The title MUST be in ITALIAN language.\n\n"@
                + summary@ + "\n\nTitle:"@,
    {
        let mut s =
            "Write a 2-6 word title for this summary. Use specific nouns, not generic words. Output only the title.\nIMPORTANT: The title MUST be in ITALIAN language.\n\n".to_owned();
        s.append(summary);
        s.append("\n\nTitle:");
        s
    }

    /// A custom analysis of a transcript, with any user notes before it.
    pub fn custom(transcript: &str, user_prompt: &str, notes: Option<&str>) -> (r: String)
        ensures
            r@ =~= "You are a professional note analyst. Analyze the following transcript"@
                + and_notes_spec(match notes {
                    Some(n) => Some(n@),
                    None => None,
                }) + " based on the user's request.\n"@ + notes_section_spec(match notes {
                    Some(n) => Some(n@),
                    None => None,
                }) + "TRANSCRIPT:\n"@ + transcript@ + "\n\nUSER REQUEST:\n"@ + user_prompt@
                + "\n\nRules:\n- Use markdown formatting where appropriate\n- Be professional and concise\n- Do NOT use emojis\n- Directly address the user's request\n- Use clear, formal language\n- If user notes are provided, consider them as additional context\n- IMPORTANT: Provide the response in ITALIAN language.\n\nRESPONSE:"@,
    {
        let section = Self::format_notes_section(notes);
        let suffix = Self::and_notes(notes);
        let mut s =
            "You are a professional note analyst. Analyze the following transcript".to_owned();
        s.append(suffix);
        s.append(" based on the user's request.\n");
        s.append(section.as_str());
        s.append("TRANSCRIPT:\n");
        s.append(transcript);
        s.append("\n\nUSER REQUEST:\n");
        s.append(user_prompt);
        s.append(
            "\n\nRules:\n- Use markdown formatting where appropriate\n- Be professional and concise\n- Do NOT use emojis\n- Directly address the user's request\n- Use clear, formal language\n- If user notes are provided, consider them as additional context\n- IMPORTANT: Provide the response in ITALIAN language.\n\nRESPONSE:",
        );
        s
    }
}


/// The enumerated, blank-line-separated section blocks of the summaries.
pub fn build_parts(chunk_summaries: &Vec<String>) -> (r: String)
    requires
        chunk_summaries@.len() <= u32::MAX,
    ensures
        r@ =~= parts_spec(
            crate::text::word_views(chunk_summaries@),
            chunk_summaries@.len() as int,
        ),
{
    let mut s = String::new();
    let mut i: usize = 0;
    let n = chunk_summaries.len();
    while i < n
        invariant
            n == chunk_summaries@.len(),
            n <= u32::MAX,
            i <= n,
            s@ =~= parts_spec(crate::text::word_views(chunk_summaries@), i as int),
        decreases n - i,
    {
        if i > 0 {
            s.append("\n\n");
        }
        s.append("--- Part ");
        let num = crate::paths::u32_to_string((i + 1) as u32);
        s.append(num.as_str());
        s.append(" ---\n");
        s.append(chunk_summaries[i].as_str());
        proof {
            assert(s@ =~= parts_spec(crate::text::word_views(chunk_summaries@), i + 1));
        }
        i = i + 1;
    }
    s
}

impl SummaryPrompts {
    /// The overview prompt for one chunk of a long transcript.
    pub fn chunk_overview(chunk: &str, chunk_num: usize, total_chunks: usize) -> (r: String)
        requires
            chunk_num <= u32::MAX,
            total_chunks <= u32::MAX,
        ensures
            r@ =~= "You are summarizing part "@ + dec_str(chunk_num as int) + " of "@ + dec_str(
                total_chunks as int,
            ) + " from a longer transcript.\n\nTRANSCRIPT CHUNK:\n"@ + chunk@
                + "\n\nProvide a concise summary of this section including:\n- Main topics discussed in this part\n- Key points and any conclusions\n- Important details mentioned\n\nRules:\n- Be concise but capture all important information\n- Use bullet points for clarity\n- Do NOT use emojis\n- This will be combined with other chunk summaries later\n- IMPORTANT: Provide the response in ITALIAN language.\n\nCHUNK SUMMARY:"@,
    {
        let mut s = "You are summarizing part ".to_owned();
        let a = crate::paths::u32_to_string(chunk_num as u32);
        s.append(a.as_str());
        s.append(" of ");
        let b = crate::paths::u32_to_string(total_chunks as u32);
        s.append(b.as_str());
        s.append(" from a longer transcript.\n\nTRANSCRIPT CHUNK:\n");
        s.append(chunk);
        s.append(
            "\n\nProvide a concise summary of this section including:\n- Main topics discussed in this part\n- Key points and any conclusions\n- Important details mentioned\n\nRules:\n- Be concise but capture all important information\n- Use bullet points for clarity\n- Do NOT use emojis\n- This will be combined with other chunk summaries later\n- IMPORTANT: Provide the response in ITALIAN language.\n\nCHUNK SUMMARY:",
        );
        s
    }

    /// The action-items prompt for one chunk of a long transcript.
    pub fn chunk_action_items(chunk: &str, chunk_num: usize, total_chunks: usize) -> (r: String)
        requires
            chunk_num <= u32::MAX,
            total_chunks <= u32::MAX,
        ensures
            r@ =~= "You are extracting action items from part "@ + dec_str(chunk_num as int)
                + " of "@ + dec_str(total_chunks as int)
                + " of a longer transcript.\n\nTRANSCRIPT CHUNK:\n"@ + chunk@
                + "\n\nExtract any action items from this section:\n- The specific task to be completed\n- Responsible person (if mentioned)\n- Deadline or timeline (if mentioned)\n\nRules:\n- Use numbered lists\n- Be specific and actionable\n- Do NOT use emojis\n- If no action items in this chunk, respond with \"Nessuna azione in questa sezione.\"\n- IMPORTANT: Provide the response in ITALIAN language.\n\nACTION ITEMS:"@,
    {
        let mut s = "You are extracting action items from part ".to_owned();
        let a = crate::paths::u32_to_string(chunk_num as u32);
        s.append(a.as_str());
        s.append(" of ");
        let b = crate::paths::u32_to_string(total_chunks as u32);
        s.append(b.as_str());
        s.append(" of a longer transcript.\n\nTRANSCRIPT CHUNK:\n");
        s.append(chunk);
        s.append(
            "\n\nExtract any action items from this section:\n- The specific task to be completed\n- Responsible person (if mentioned)\n- Deadline or timeline (if mentioned)\n\nRules:\n- Use numbered lists\n- Be specific and actionable\n- Do NOT use emojis\n- If no action items in this chunk, respond with \"Nessuna azione in questa sezione.\"\n- IMPORTANT: Provide the response in ITALIAN language.\n\nACTION ITEMS:",
        );
        s
    }

    /// The key-decisions prompt for one chunk of a long transcript.
    pub fn chunk_key_decisions(chunk: &str, chunk_num: usize, total_chunks: usize) -> (r: String)
        requires
            chunk_num <= u32::MAX,
            total_chunks <= u32::MAX,
        ensures
            r@ =~= "You are extracting key decisions from part "@ + dec_str(chunk_num as int)
                + " of "@ + dec_str(total_chunks as int)
                + " of a longer transcript.\n\nTRANSCRIPT CHUNK:\n"@ + chunk@
                + "\n\nExtract any decisions from this section:\n- What was decided\n- Context or reasoning (if provided)\n- Who made or approved the decision (if mentioned)\n\nRules:\n- Use numbered lists\n- Be specific and clear\n- Do NOT use emojis\n- If no decisions in this chunk, respond with \"Nessuna decisione in questa sezione.\"\n- IMPORTANT: Provide the response in ITALIAN language.\n\nKEY DECISIONS:"@,
    {
        let mut s = "You are extracting key decisions from part ".to_owned();
        let a = crate::paths::u32_to_string(chunk_num as u32);
        s.append(a.as_str());
        s.append(" of ");
        let b = crate::paths::u32_to_string(total_chunks as u32);
        s.append(b.as_str());
        s.append(" of a longer transcript.\n\nTRANSCRIPT CHUNK:\n");
        s.append(chunk);
        s.append(
            "\n\nExtract any decisions from this section:\n- What was decided\n- Context or reasoning (if provided)\n- Who made or approved the decision (if mentioned)\n\nRules:\n- Use numbered lists\n- Be specific and clear\n- Do NOT use emojis\n- If no decisions in this chunk, respond with \"Nessuna decisione in questa sezione.\"\n- IMPORTANT: Provide the response in ITALIAN language.\n\nKEY DECISIONS:",
        );
        s
    }

    /// The custom-request prompt for one chunk of a long transcript.
    pub fn chunk_custom(chunk: &str, user_prompt: &str, chunk_num: usize, total_chunks: usize) -> (r:
        String)
        requires
            chunk_num <= u32::MAX,
            total_chunks <= u32::MAX,
        ensures
            r@ =~= "You are analyzing part "@ + dec_str(chunk_num as int) + " of "@ + dec_str(
                total_chunks as int,
            ) + " from a longer transcript for the user's request.\n\nUSER REQUEST:\n"@
                + user_prompt@ + "\n\nTRANSCRIPT CHUNK:\n"@ + chunk@
                + "\n\nProvide relevant information from this section that addresses the user's request.\n\nRules:\n- Be concise but capture all relevant information\n- Do NOT use emojis\n- This will be combined with results from other sections later\n- IMPORTANT: Provide the response in ITALIAN language.\n\nRESPONSE:"@,
    {
        let mut s = "You are analyzing part ".to_owned();
        let a = crate::paths::u32_to_string(chunk_num as u32);
        s.append(a.as_str());
        s.append(" of ");
        let b = crate::paths::u32_to_string(total_chunks as u32);
        s.append(b.as_str());
        s.append(" from a longer transcript for the user's request.\n\nUSER REQUEST:\n");
        s.append(user_prompt);
        s.append("\n\nTRANSCRIPT CHUNK:\n");
        s.append(chunk);
        s.append(
            "\n\nProvide relevant information from this section that addresses the user's request.\n\nRules:\n- Be concise but capture all relevant information\n- Do NOT use emojis\n- This will be combined with results from other sections later\n- IMPORTANT: Provide the response in ITALIAN language.\n\nRESPONSE:",
        );
        s
    }

    /// The merge prompt combining section overviews.
    pub fn merge_overview(chunk_summaries: &Vec<String>, notes: Option<&str>) -> (r: String)
        requires
            chunk_summaries@.len() <= u32::MAX,
        ensures
            r@ =~= "You are creating a final summary from multiple section summaries of a long transcript"@
                + and_notes_spec(match notes {
                    Some(n) => Some(n@),
                    None => None,
                }) + ".\n"@ + notes_section_spec(match notes {
                    Some(n) => Some(n@),
                    None => None,
                }) + "SECTION SUMMARIES:\n"@ + parts_spec(
                crate::text::word_views(chunk_summaries@),
                chunk_summaries@.len() as int,
            )
                + "\n\nCombine these into a single, coherent summary that includes:\n- Main topics discussed\n- Key points and conclusions\n- Overall outcome\n\nRules:\n- Use markdown formatting (headings, bullet points, bold for emphasis)\n- Be concise and professional\n- Do NOT use emojis\n- Eliminate redundancy between sections\n- Present information in a logical flow\n- If user notes are provided, incorporate relevant context\n- IMPORTANT: Provide the final summary in ITALIAN language.\n\nFINAL SUMMARY:"@,
    {
        let parts = build_parts(chunk_summaries);
        let section = Self::format_notes_section(notes);
        let suffix = Self::and_notes(notes);
        let mut s =
            "You are creating a final summary from multiple section summaries of a long transcript".to_owned();
        s.append(suffix);
        s.append(".\n");
        s.append(section.as_str());
        s.append("SECTION SUMMARIES:\n");
        s.append(parts.as_str());
        s.append(
            "\n\nCombine these into a single, coherent summary that includes:\n- Main topics discussed\n- Key points and conclusions\n- Overall outcome\n\nRules:\n- Use markdown formatting (headings, bullet points, bold for emphasis)\n- Be concise and professional\n- Do NOT use emojis\n- Eliminate redundancy between sections\n- Present information in a logical flow\n- If user notes are provided, incorporate relevant context\n- IMPORTANT: Provide the final summary in ITALIAN language.\n\nFINAL SUMMARY:",
        );
        s
    }

    /// The merge prompt consolidating section action items.
    pub fn merge_action_items(chunk_summaries: &Vec<String>, notes: Option<&str>) -> (r: String)
        requires
            chunk_summaries@.len() <= u32::MAX,
        ensures
            r@ =~= "You are consolidating action items from multiple sections of a long transcript"@
                + and_notes_spec(match notes {
                    Some(n) => Some(n@),
                    None => None,
                }) + ".\n"@ + notes_section_spec(match notes {
                    Some(n) => Some(n@),
                    None => None,
                }) + "SECTION ACTION ITEMS:\n"@ + parts_spec(
                crate::text::word_views(chunk_summaries@),
                chunk_summaries@.len() as int,
            )
                + "\n\nCombine these into a single, deduplicated list of action items:\n- The specific task to be completed\n- Responsible person (if mentioned)\n- Deadline or timeline (if mentioned)\n\nRules:\n- Use markdown formatting with numbered lists\n- Remove duplicate or redundant items\n- Be specific and actionable\n- Do NOT use emojis\n- If no action items found, state \"Nessuna azione identificata.\"\n- If user notes mention action items, include them\n- IMPORTANT: Provide the response in ITALIAN language.\n\nACTION ITEMS:"@,
    {
        let parts = build_parts(chunk_summaries);
        let section = Self::format_notes_section(notes);
        let suffix = Self::and_notes(notes);
        let mut s =
            "You are consolidating action items from multiple sections of a long transcript".to_owned();
        s.append(suffix);
        s.append(".\n");
        s.append(section.as_str());
        s.append("SECTION ACTION ITEMS:\n");
        s.append(parts.as_str());
        s.append(
            "\n\nCombine these into a single, deduplicated list of action items:\n- The specific task to be completed\n- Responsible person (if mentioned)\n- Deadline or timeline (if mentioned)\n\nRules:\n- Use markdown formatting with numbered lists\n- Remove duplicate or redundant items\n- Be specific and actionable\n- Do NOT use emojis\n- If no action items found, state \"Nessuna azione identificata.\"\n- If user notes mention action items, include them\n- IMPORTANT: Provide the response in ITALIAN language.\n\nACTION ITEMS:",
        );
        s
    }

    /// The merge prompt consolidating section key decisions.
    pub fn merge_key_decisions(chunk_summaries: &Vec<String>, notes: Option<&str>) -> (r: String)
        requires
            chunk_summaries@.len() <= u32::MAX,
        ensures
            r@ =~= "You are consolidating key decisions from multiple sections of a long transcript"@
                + and_notes_spec(match notes {
                    Some(n) => Some(n@),
                    None => None,
                }) + ".\n"@ + notes_section_spec(match notes {
                    Some(n) => Some(n@),
                    None => None,
                }) + "SECTION DECISIONS:\n"@ + parts_spec(
                crate::text::word_views(chunk_summaries@),
                chunk_summaries@.len() as int,
            )
                + "\n\nCombine these into a single, deduplicated list of decisions:\n- What was decided\n- Context or reasoning (if provided)\n- Who made or approved the decision (if mentioned)\n\nRules:\n- Use markdown formatting with numbered lists\n- Remove duplicate or redundant decisions\n- Be specific and clear\n- Do NOT use emojis\n- If no decisions found, state \"Nessuna decisione chiave identificata.\"\n- If user notes mention decisions, include them\n- IMPORTANT: Provide the response in ITALIAN language.\n\nKEY DECISIONS:"@,
    {
        let parts = build_parts(chunk_summaries);
        let section = Self::format_notes_section(notes);
        let suffix = Self::and_notes(notes);
        let mut s =
            "You are consolidating key decisions from multiple sections of a long transcript".to_owned();
        s.append(suffix);
        s.append(".\n");
        s.append(section.as_str());
        s.append("SECTION DECISIONS:\n");
        s.append(parts.as_str());
        s.append(
            "\n\nCombine these into a single, deduplicated list of decisions:\n- What was decided\n- Context or reasoning (if provided)\n- Who made or approved the decision (if mentioned)\n\nRules:\n- Use markdown formatting with numbered lists\n- Remove duplicate or redundant decisions\n- Be specific and clear\n- Do NOT use emojis\n- If no decisions found, state \"Nessuna decisione chiave identificata.\"\n- If user notes mention decisions, include them\n- IMPORTANT: Provide the response in ITALIAN language.\n\nKEY DECISIONS:",
        );
        s
    }

    /// The merge prompt consolidating custom-request section results.
    pub fn merge_custom(chunk_summaries: &Vec<String>, user_prompt: &str, notes: Option<&str>) -> (r:
        String)
        requires
            chunk_summaries@.len() <= u32::MAX,
        ensures
            r@ =~= "You are consolidating results from multiple sections of a long transcript"@
                + and_notes_spec(match notes {
                    Some(n) => Some(n@),
                    None => None,
                }) + " for the user's request.\n"@ + notes_section_spec(match notes {
                    Some(n) => Some(n@),
                    None => None,
                }) + "USER REQUEST:\n"@ + user_prompt@ + "\n\nSECTION RESULTS:\n"@ + parts_spec(
                crate::text::word_views(chunk_summaries@),
                chunk_summaries@.len() as int,
            )
                + "\n\nCombine these into a single, coherent response that addresses the user's request.\n\nRules:\n- Use markdown formatting where appropriate\n- Be professional and concise\n- Do NOT use emojis\n- Eliminate redundancy\n- If user notes are provided, consider them as additional context\n- IMPORTANT: Provide the response in ITALIAN language.\n\nFINAL RESPONSE:"@,
    {
        let parts = build_parts(chunk_summaries);
        let section = Self::format_notes_section(notes);
        let suffix = Self::and_notes(notes);
        let mut s =
            "You are consolidating results from multiple sections of a long transcript".to_owned();
        s.append(suffix);
        s.append(" for the user's request.\n");
        s.append(section.as_str());
        s.append("USER REQUEST:\n");
        s.append(user_prompt);
        s.append("\n\nSECTION RESULTS:\n");
        s.append(parts.as_str());
        s.append(
            "\n\nCombine these into a single, coherent response that addresses the user's request.\n\nRules:\n- Use markdown formatting where appropriate\n- Be professional and concise\n- Do NOT use emojis\n- Eliminate redundancy\n- If user notes are provided, consider them as additional context\n- IMPORTANT: Provide the response in ITALIAN language.\n\nFINAL RESPONSE:",
        );
        s
    }
}

/// Every occurrence of `pat` in `s` replaced by `rep`, scanning left to
/// right without overlap; an empty pattern replaces nothing.
pub open spec fn replace_all(s: Seq<char>, pat: Seq<char>, rep: Seq<char>) -> Seq<char>
    decreases s.len(),
{
    if pat.len() == 0 || s.len() < pat.len() {
        s
    } else if s.take(pat.len() as int) == pat {
        rep + replace_all(s.skip(pat.len() as int), pat, rep)
    } else {
        seq![s[0]] + replace_all(s.skip(1), pat, rep)
    }
}

/// A reusable prompt template with a transcript placeholder.
#[derive(Debug)]
pub struct PromptTemplate {
    pub name: String,
    pub description: String,
    pub template: String,
}

impl PromptTemplate {
    /// The template with every `{transcript}` placeholder replaced by the
    /// transcript.
    pub fn render(&self, transcript: &str) -> (r: String)
        ensures
            r@ =~= replace_all(self.template@, "{transcript}"@, transcript@),
    {
        replace_str(self.template.as_str(), "{transcript}", transcript)
    }
}

/// Replace every occurrence of `pat` in `s` by `rep`.
pub fn replace_str(s: &str, pat: &str, rep: &str) -> (r: String)
    ensures
        r@ =~= replace_all(s@, pat@, rep@),
{
    let n = s.unicode_len();
    let m = pat.unicode_len();
    if m == 0 {
        return s.to_owned();
    }
    let mut out = String::new();
    let mut i: usize = 0;
    proof {
        assert(s@.skip(0) =~= s@);
    }
    while i < n
        invariant
            n == s@.len(),
            m == pat@.len(),
            m >= 1,
            i <= n,
            out@ + replace_all(s@.skip(i as int), pat@, rep@) =~= replace_all(s@, pat@, rep@),
        decreases n - i,
    {
        let ghost rest = s@.skip(i as int);
        let mut hit = false;
        if m <= n - i {
            let head = s.substring_char(i, i + m);
            if crate::model::eq_str(head, pat) {
                hit = true;
            }
        }
        if hit {
            proof {
                assert(rest.take(m as int) =~= s@.subrange(i as int, i + m));
                assert(rest.take(m as int) == pat@);
                assert(rest.skip(m as int) =~= s@.skip(i + m));
                assert(replace_all(rest, pat@, rep@) == rep@ + replace_all(
                    s@.skip(i + m),
                    pat@,
                    rep@,
                ));
            }
            out.append(rep);
            i = i + m;
        } else {
            proof {
                if i + m <= n {
                    assert(rest.take(m as int) =~= s@.subrange(i as int, i + m));
                    assert(rest.take(m as int) != pat@);
                    assert(rest.skip(1) =~= s@.skip(i + 1));
                    assert(replace_all(rest, pat@, rep@) == seq![rest[0]] + replace_all(
                        s@.skip(i + 1),
                        pat@,
                        rep@,
                    ));
                } else {
                    assert(rest.len() < m);
                    assert(replace_all(rest, pat@, rep@) == rest);
                    assert(rest.skip(1) =~= s@.skip(i + 1));
                    assert(replace_all(s@.skip(i + 1), pat@, rep@) == s@.skip(i + 1));
                    assert(replace_all(rest, pat@, rep@) =~= seq![rest[0]] + replace_all(
                        s@.skip(i + 1),
                        pat@,
                        rep@,
                    ));
                }
                assert(rest[0] == s@[i as int]);
            }
            crate::ai::push_char(&mut out, s.get_char(i));
            i = i + 1;
        }
    }
    proof {
        assert(s@.skip(n as int) =~= Seq::<char>::empty());
        assert(replace_all(s@.skip(n as int), pat@, rep@) =~= Seq::<char>::empty());
    }
    out
}

} // verus!