//! The dialect renderer: embeds the word table and the encoded token
//! sequence into a fixed source-text template for one of a small closed set
//! of output dialects. Each rendered program reconstructs the encoded
//! sequence (merging chunks where the dialect required chunking), reverse-
//! maps every token to its byte through the embedded table, and hands the
//! recovered byte sequence to its host environment on standard output.

use vstd::prelude::*;
use vstd::string::*;
use crate::chunk::{chunk_lines_spec, chunk_shellcode, CHUNK_CAP};
use crate::errors::LexiError;
use crate::text::{comma_join, quote_join, quoted_all, str_eq};
use crate::views_of;
use crate::words::WordTable;

verus! {

/// One target output-language template family. The set is closed: it is not
/// user-extensible at runtime.
#[derive(Clone, Copy, Debug, PartialEq, Eq, Structural)]
pub enum Dialect {
    Cpp,
    Rust,
    Go,
    Csharp,
    Powershell,
    PowershellAlt,
}

/// The dialect a requested name selects, if the name is recognized.
pub open spec fn dialect_of(name: Seq<char>) -> Option<Dialect> {
    if name == "cpp"@ {
        Some(Dialect::Cpp)
    } else if name == "rust"@ {
        Some(Dialect::Rust)
    } else if name == "go"@ {
        Some(Dialect::Go)
    } else if name == "csharp"@ {
        Some(Dialect::Csharp)
    } else if name == "powershell"@ {
        Some(Dialect::Powershell)
    } else if name == "powershell_alt"@ {
        Some(Dialect::PowershellAlt)
    } else {
        None
    }
}

impl Dialect {
    /// Resolves a requested dialect name, or nothing for an unrecognized
    /// name.
    pub fn from_name(name: &str) -> (r: Option<Dialect>)
        ensures
            r == dialect_of(name@),
    {
        if str_eq(name, "cpp") {
            Some(Dialect::Cpp)
        } else if str_eq(name, "rust") {
            Some(Dialect::Rust)
        } else if str_eq(name, "go") {
            Some(Dialect::Go)
        } else if str_eq(name, "csharp") {
            Some(Dialect::Csharp)
        } else if str_eq(name, "powershell") {
            Some(Dialect::Powershell)
        } else if str_eq(name, "powershell_alt") {
            Some(Dialect::PowershellAlt)
        } else {
            None
        }
    }
}

/// The literal body of a rendered token array: the tokens, quoted and
/// comma-separated.
pub open spec fn tokens_literal(ts: Seq<Seq<char>>) -> Seq<char> {
    comma_join(quoted_all(ts))
}

/// One rendered row per chunk line, each row wrapped in braces.
pub open spec fn chunk_block(lines: Seq<Seq<char>>) -> Seq<char>
    decreases lines.len(),
{
    if lines.len() == 0 {
        Seq::empty()
    } else {
        "    {"@ + lines[0] + "},\n"@ + chunk_block(lines.drop_first())
    }
}

/// Rendering one more chunk row appends that row.
proof fn lemma_chunk_block_push(lines: Seq<Seq<char>>, x: Seq<char>)
    ensures
        chunk_block(lines.push(x)) == chunk_block(lines) + "    {"@ + x + "},\n"@,
    decreases lines.len(),
{
    let p2 = lines.push(x);
    if lines.len() == 0 {
        assert(p2[0] == x);
        assert(p2.drop_first() =~= lines);
        assert(chunk_block(p2) =~= chunk_block(lines) + "    {"@ + x + "},\n"@);
    } else {
        assert(p2[0] == lines[0]);
        assert(p2.drop_first() =~= lines.drop_first().push(x));
        lemma_chunk_block_push(lines.drop_first(), x);
        assert(chunk_block(p2) =~= chunk_block(lines) + "    {"@ + x + "},\n"@);
    }
}

/// Renders the brace-wrapped rows of all chunk lines.
fn render_chunk_block(lines: &Vec<String>) -> (r: String)
    ensures
        r@ == chunk_block(views_of(lines@)),
{
    let ghost lvs = views_of(lines@);
    let mut r = String::new();
    let mut i: usize = 0;
    while i < lines.len()
        invariant
            lvs == views_of(lines@),
            i <= lvs.len(),
            r@ == chunk_block(lvs.take(i as int)),
        decreases lvs.len() - i,
    {
        r.append("    {");
        r.append(lines[i].as_str());
        r.append("},\n");
        proof {
            lemma_chunk_block_push(lvs.take(i as int), lvs[i as int]);
            assert(lvs.take(i as int).push(lvs[i as int]) =~= lvs.take(i + 1 as int));
            assert(r@ =~= chunk_block(lvs.take(i + 1 as int)));
        }
        i += 1;
    }
    proof {
        assert(lvs.take(lvs.len() as int) =~= lvs);
    }
    r
}

/// The complete output text of each dialect: the fixed template of the
/// dialect with the word-table literal and the encoded-sequence literal (or
/// its chunk rows) substituted in.
pub open spec fn render_spec(d: Dialect, enc: Seq<Seq<char>>, words: Seq<Seq<char>>) -> Seq<char> {
    match d {
        Dialect::Cpp => "#include <cstdio>\n#include <string>\n#include <vector>\n\nstd::vector<std::string> wordList = {"@
            + tokens_literal(words)
            + "};\n\nstd::vector<std::vector<std::string>> encodedChunks = {\n"@
            + chunk_block(chunk_lines_spec(enc, CHUNK_CAP as int))
            + "};\n\nint main() {\n    std::string out;\n    for (const auto& chunk : encodedChunks) {\n        for (const auto& word : chunk) {\n            for (std::size_t i = 0; i < wordList.size(); i++) {\n                if (wordList[i] == word) {\n                    out.push_back((char)i);\n                    break;\n                }\n            }\n        }\n    }\n    std::fwrite(out.data(), 1, out.size(), stdout);\n    return 0;\n}\n"@,
        Dialect::Rust => "use std::io::Write;\n\nfn main() {\n    let word_list: &[&str] = &["@
            + tokens_literal(words)
            + "];\n    let encoded_words: &[&str] = &["@
            + tokens_literal(enc)
            + "];\n    let mut bytes = Vec::new();\n    for word in encoded_words {\n        for (i, w) in word_list.iter().enumerate() {\n            if w == word {\n                bytes.push(i as u8);\n                break;\n            }\n        }\n    }\n    std::io::stdout().write_all(&bytes).unwrap();\n}\n"@,
        Dialect::Go => "package main\n\nimport \"os\"\n\nfunc main() {\n\twordList := []string{"@
            + tokens_literal(words)
            + "}\n\tencodedWords := []string{"@
            + tokens_literal(enc)
            + "}\n\tpayload := make([]byte, 0, len(encodedWords))\n\tfor _, word := range encodedWords {\n\t\tfor i, w := range wordList {\n\t\t\tif w == word {\n\t\t\t\tpayload = append(payload, byte(i))\n\t\t\t\tbreak\n\t\t\t}\n\t\t}\n\t}\n\tos.Stdout.Write(payload)\n}\n"@,
        Dialect::Csharp => "using System;\nusing System.Collections.Generic;\n\nclass Program {\n    static void Main() {\n        string[] wordList = new string[] {"@
            + tokens_literal(words)
            + "};\n        string[] encodedWords = new string[] {"@
            + tokens_literal(enc)
            + "};\n        var payload = new List<byte>();\n        foreach (var word in encodedWords) {\n            var index = Array.IndexOf(wordList, word);\n            if (index != -1) {\n                payload.Add((byte)index);\n            }\n        }\n        var stdout = Console.OpenStandardOutput();\n        stdout.Write(payload.ToArray(), 0, payload.Count);\n    }\n}\n"@,
        Dialect::Powershell => "$WordList = @("@
            + tokens_literal(words)
            + ")\n$EncodedWords = @("@
            + tokens_literal(enc)
            + ")\n$Payload = @()\nforeach ($word in $EncodedWords) {\n    for ($i = 0; $i -lt $WordList.Count; $i++) {\n        if ($WordList[$i] -eq $word) {\n            $Payload += [byte]$i\n            break\n        }\n    }\n}\n$Stdout = [Console]::OpenStandardOutput()\n$Stdout.Write([byte[]]$Payload, 0, $Payload.Count)\n"@,
        Dialect::PowershellAlt => "$EncodedWords = @("@
            + tokens_literal(enc)
            + ")\n$WordList = @("@
            + tokens_literal(words)
            + ")\nfunction Decode-Payload {\n    $bytes = New-Object byte[] $EncodedWords.Count\n    for ($i = 0; $i -lt $EncodedWords.Count; $i++) {\n        for ($j = 0; $j -lt $WordList.Count; $j++) {\n            if ($WordList[$j] -eq $EncodedWords[$i]) {\n                $bytes[$i] = [byte]$j\n                break\n            }\n        }\n    }\n    return $bytes\n}\n$Payload = Decode-Payload\n[Console]::OpenStandardOutput().Write($Payload, 0, $Payload.Count)\n"@,
    }
}

/// Renders the encoded sequence and the word table as output text in the
/// requested dialect. Fails with an unsupported-dialect error, before any
/// rendering work, exactly when the requested name is not one of the known
/// set.
pub fn generate_output(encoded: &Vec<String>, table: &WordTable, template: &str) -> (r: Result<
    String,
    LexiError,
>)
    requires
        table.wf(),
    ensures
        r is Ok <==> dialect_of(template@) is Some,
        r matches Err(e) ==> e == LexiError::UnsupportedDialect,
        r matches Ok(text) ==> text@ == render_spec(
            dialect_of(template@).unwrap(),
            views_of(encoded@),
            table@,
        ),
{
    let d = match Dialect::from_name(template) {
        Some(d) => d,
        None => {
            return Err(LexiError::UnsupportedDialect);
        },
    };
    let ghost enc = views_of(encoded@);
    let wordlist_str = quote_join(&table.words);
    proof {
        assert(wordlist_str@ == tokens_literal(table@));
    }
    match d {
        Dialect::Cpp => {
            let lines = chunk_shellcode(encoded, CHUNK_CAP);
            let block = render_chunk_block(&lines);
            proof {
                assert(block@ == chunk_block(chunk_lines_spec(enc, CHUNK_CAP as int)));
            }
            let mut out = String::new();
            out.append("#include <cstdio>\n#include <string>\n#include <vector>\n\nstd::vector<std::string> wordList = {");
            out.append(wordlist_str.as_str());
            out.append("};\n\nstd::vector<std::vector<std::string>> encodedChunks = {\n");
            out.append(block.as_str());
            out.append("};\n\nint main() {\n    std::string out;\n    for (const auto& chunk : encodedChunks) {\n        for (const auto& word : chunk) {\n            for (std::size_t i = 0; i < wordList.size(); i++) {\n                if (wordList[i] == word) {\n                    out.push_back((char)i);\n                    break;\n                }\n            }\n        }\n    }\n    std::fwrite(out.data(), 1, out.size(), stdout);\n    return 0;\n}\n");
            proof {
                assert(out@ =~= render_spec(d, enc, table@));
            }
            Ok(out)
        },
        Dialect::Rust => {
            let encoded_str = quote_join(encoded);
            let mut out = String::new();
            out.append("use std::io::Write;\n\nfn main() {\n    let word_list: &[&str] = &[");
            out.append(wordlist_str.as_str());
            out.append("];\n    let encoded_words: &[&str] = &[");
            out.append(encoded_str.as_str());
            out.append("];\n    let mut bytes = Vec::new();\n    for word in encoded_words {\n        for (i, w) in word_list.iter().enumerate() {\n            if w == word {\n                bytes.push(i as u8);\n                break;\n            }\n        }\n    }\n    std::io::stdout().write_all(&bytes).unwrap();\n}\n");
            proof {
                assert(out@ =~= render_spec(d, enc, table@));
            }
            Ok(out)
        },
        Dialect::Go => {
            let encoded_str = quote_join(encoded);
            let mut out = String::new();
            out.append("package main\n\nimport \"os\"\n\nfunc main() {\n\twordList := []string{");
            out.append(wordlist_str.as_str());
            out.append("}\n\tencodedWords := []string{");
            out.append(encoded_str.as_str());
            out.append("}\n\tpayload := make([]byte, 0, len(encodedWords))\n\tfor _, word := range encodedWords {\n\t\tfor i, w := range wordList {\n\t\t\tif w == word {\n\t\t\t\tpayload = append(payload, byte(i))\n\t\t\t\tbreak\n\t\t\t}\n\t\t}\n\t}\n\tos.Stdout.Write(payload)\n}\n");
            proof {
                assert(out@ =~= render_spec(d, enc, table@));
            }
            Ok(out)
        },
        Dialect::Csharp => {
            let encoded_str = quote_join(encoded);
            let mut out = String::new();
            out.append("using System;\nusing System.Collections.Generic;\n\nclass Program {\n    static void Main() {\n        string[] wordList = new string[] {");
            out.append(wordlist_str.as_str());
            out.append("};\n        string[] encodedWords = new string[] {");
            out.append(encoded_str.as_str());
            out.append("};\n        var payload = new List<byte>();\n        foreach (var word in encodedWords) {\n            var index = Array.IndexOf(wordList, word);\n            if (index != -1) {\n                payload.Add((byte)index);\n            }\n        }\n        var stdout = Console.OpenStandardOutput();\n        stdout.Write(payload.ToArray(), 0, payload.Count);\n    }\n}\n");
            proof {
                assert(out@ =~= render_spec(d, enc, table@));
            }
            Ok(out)
        },
        Dialect::Powershell => {
            let encoded_str = quote_join(encoded);
            let mut out = String::new();
            out.append("$WordList = @(");
            out.append(wordlist_str.as_str());
            out.append(")\n$EncodedWords = @(");
            out.append(encoded_str.as_str());
            out.append(")\n$Payload = @()\nforeach ($word in $EncodedWords) {\n    for ($i = 0; $i -lt $WordList.Count; $i++) {\n        if ($WordList[$i] -eq $word) {\n            $Payload += [byte]$i\n            break\n        }\n    }\n}\n$Stdout = [Console]::OpenStandardOutput()\n$Stdout.Write([byte[]]$Payload, 0, $Payload.Count)\n");
            proof {
                assert(out@ =~= render_spec(d, enc, table@));
            }
            Ok(out)
        },
        Dialect::PowershellAlt => {
            let encoded_str = quote_join(encoded);
            let mut out = String::new();
            out.append("$EncodedWords = @(");
            out.append(encoded_str.as_str());
            out.append(")\n$WordList = @(");
            out.append(wordlist_str.as_str());
            out.append(")\nfunction Decode-Payload {\n    $bytes = New-Object byte[] $EncodedWords.Count\n    for ($i = 0; $i -lt $EncodedWords.Count; $i++) {\n        for ($j = 0; $j -lt $WordList.Count; $j++) {\n            if ($WordList[$j] -eq $EncodedWords[$i]) {\n                $bytes[$i] = [byte]$j\n                break\n            }\n        }\n    }\n    return $bytes\n}\n$Payload = Decode-Payload\n[Console]::OpenStandardOutput().Write($Payload, 0, $Payload.Count)\n");
            proof {
                assert(out@ =~= render_spec(d, enc, table@));
            }
            Ok(out)
        },
    }
}

} // verus!
