//! The resources of the executable: its icon, its manifest and its version.

use vstd::prelude::*;

use crate::paths::join;
use crate::text::chars_of;
use crate::text::parse_number;
use crate::text::replace_char;
use crate::text::to_decimal;

verus! {

/// The file of the service, as it is built and as it is laid down.
pub const SERVICE_EXE: &'static str = "MH-Monitoring-Service.exe";

/// The numbers among the parts of a version between dots and hyphens, at most so many.
pub open spec fn version_numbers(word: Seq<char>, rest: Seq<char>, limit: nat) -> Seq<u32>
    decreases rest.len(),
{
    let found = match crate::text::number(word, u32::MAX as nat) {
        Some(n) => seq![n as u32],
        None => seq![],
    };
    if limit == 0 {
        seq![]
    } else if rest.len() == 0 {
        found
    } else if rest[0] == '.' || rest[0] == '-' {
        found + version_numbers(seq![], rest.skip(1), (limit - found.len()) as nat)
    } else {
        version_numbers(word.push(rest[0]), rest.skip(1), limit)
    }
}

/// The four numbers of a version: those it has, then zeros.
pub open spec fn four_numbers(version: Seq<char>) -> Seq<u32> {
    let found = version_numbers(seq![], version, 4);
    found + Seq::new((4 - found.len()) as nat, |i: int| 0u32)
}

proof fn lemma_version_length(word: Seq<char>, rest: Seq<char>, limit: nat)
    ensures
        version_numbers(word, rest, limit).len() <= limit,
    decreases rest.len(),
{
    if limit > 0 && rest.len() > 0 {
        if rest[0] == '.' || rest[0] == '-' {
            let found = match crate::text::number(word, u32::MAX as nat) {
                Some(n) => seq![n as u32],
                None => seq![],
            };
            lemma_version_length(seq![], rest.skip(1), (limit - found.len()) as nat);
        } else {
            lemma_version_length(word.push(rest[0]), rest.skip(1), limit);
        }
    }
}

/// A version as the resources want it: four numbers.
pub fn numeric_version(version: &str) -> (r: Vec<u32>)
    ensures
        r@ == four_numbers(version@),
        r.len() == 4,
{
    let chars = chars_of(version);
    let mut numbers: Vec<u32> = Vec::new();
    let mut word = String::new();
    let mut i: usize = 0;
    let ghost all = version_numbers(seq![], version@, 4);
    proof {
        lemma_version_length(seq![], version@, 4);
        assert(version@.skip(0) =~= version@);
        assert(word@ =~= seq![]);
        assert(numbers@ + all =~= all);
    }
    while i < chars.len() && numbers.len() < 4
        invariant
            i <= chars.len(),
            chars@ == version@,
            numbers.len() <= 4,
            numbers@ + version_numbers(
                word@,
                version@.skip(i as int),
                (4 - numbers.len()) as nat,
            ) == all,
        decreases chars.len() - i,
    {
        let c = chars[i];
        let ghost rest = version@.skip(i as int);
        proof {
            assert(rest[0] == c);
            assert(rest.skip(1) =~= version@.skip(i + 1));
        }
        if c == '.' || c == '-' {
            let ghost before = numbers@;
            let ghost next = version@.skip(i + 1);
            if let Some(n) = parse_number(word.as_str(), u32::MAX as u64) {
                numbers.push(n as u32);
                proof {
                    assert(numbers@ + version_numbers(seq![], next, (4 - numbers.len()) as nat)
                        =~= before + (seq![n as u32] + version_numbers(
                        seq![],
                        next,
                        (4 - numbers.len()) as nat,
                    )));
                }
            } else {
                proof {
                    assert(Seq::<u32>::empty() + version_numbers(
                        seq![],
                        next,
                        (4 - numbers.len()) as nat,
                    ) =~= version_numbers(seq![], next, (4 - numbers.len()) as nat));
                }
            }
            word = String::new();
            proof {
                assert(word@ =~= seq![]);
            }
        } else {
            word.push(c);
        }
        i += 1;
    }
    if numbers.len() < 4 {
        proof {
            assert(version@.skip(i as int).len() == 0);
        }
        if let Some(n) = parse_number(word.as_str(), u32::MAX as u64) {
            numbers.push(n as u32);
        }
    }
    proof {
        assert(numbers@ =~= all);
    }
    while numbers.len() < 4
        invariant
            numbers.len() <= 4,
            all.len() <= numbers.len(),
            numbers@ == all + Seq::new((numbers.len() - all.len()) as nat, |k: int| 0u32),
        decreases 4 - numbers.len(),
    {
        numbers.push(0);
        proof {
            assert(numbers@ =~= all + Seq::new(
                (numbers.len() - all.len()) as nat,
                |k: int| 0u32,
            ));
        }
    }
    numbers
}

/// Where the service is taken from at the time of the build: from the place that was named, or
/// from the folder of the build.
pub fn service_source(named: &Option<String>, profile_dir: &Option<String>) -> (r: String)
    ensures
        r@ == (match (named, profile_dir) {
            (Some(path), _) => path@,
            (None, Some(folder)) => crate::paths::joined_path(folder@, SERVICE_EXE@),
            (None, None) => SERVICE_EXE@,
        }),
{
    match named {
        Some(path) => path.clone(),
        None => match profile_dir {
            Some(folder) => join(folder.as_str(), SERVICE_EXE),
            None => SERVICE_EXE.to_string(),
        },
    }
}

/// A path inside quotes of the script.
pub open spec fn quoted_path(path: Seq<char>) -> Seq<char> {
    crate::text::replaced(path, '\\', "\\\\"@)
}

/// The four numbers of a version as the script writes them.
pub open spec fn version_list(numbers: Seq<u32>) -> Seq<char> {
    crate::text::decimal(numbers[0] as nat) + ","@ + crate::text::decimal(numbers[1] as nat) + ","@
        + crate::text::decimal(numbers[2] as nat) + ","@ + crate::text::decimal(numbers[3] as nat)
}

/// The script that makes the resources.
pub open spec fn script_of(version: Seq<char>, icon: Seq<char>, manifest: Seq<char>) -> Seq<char> {
    let numeric = version_list(four_numbers(version));
    "#pragma code_page(65001)\n1 ICON \""@ + quoted_path(icon) + "\"\n1 24 \""@ + quoted_path(
        manifest,
    ) + "\"\n1 VERSIONINFO\nFILEVERSION "@ + numeric + "\nPRODUCTVERSION "@ + numeric
        + "\nFILEOS 0x40004\nFILETYPE 0x1\nBEGIN\n  BLOCK \"StringFileInfo\"\n  BEGIN\n    BLOCK \"041904B0\"\n    BEGIN\n      VALUE \"CompanyName\", \"midnightheartsgames\"\n      VALUE \"FileDescription\", \"MH Monitoring — оверлей производительности\"\n      VALUE \"FileVersion\", \""@
        + version
        + "\"\n      VALUE \"InternalName\", \"MH-Monitoring\"\n      VALUE \"OriginalFilename\", \"MH-Monitoring.exe\"\n      VALUE \"ProductName\", \"MH Monitoring\"\n      VALUE \"ProductVersion\", \""@
        + version
        + "\"\n    END\n  END\n  BLOCK \"VarFileInfo\"\n  BEGIN\n    VALUE \"Translation\", 0x419, 1200\n  END\nEND\n"@
}

pub fn resource_script(version: &str, icon: &str, manifest: &str) -> (r: String)
    ensures
        r@ == script_of(version@, icon@, manifest@),
{
    let numbers = numeric_version(version);
    let mut numeric = to_decimal(numbers[0] as u64);
    numeric.append(",");
    numeric.append(to_decimal(numbers[1] as u64).as_str());
    numeric.append(",");
    numeric.append(to_decimal(numbers[2] as u64).as_str());
    numeric.append(",");
    numeric.append(to_decimal(numbers[3] as u64).as_str());
    let mut r = "#pragma code_page(65001)\n1 ICON \"".to_string();
    r.append(replace_char(icon, '\\', "\\\\").as_str());
    r.append("\"\n1 24 \"");
    r.append(replace_char(manifest, '\\', "\\\\").as_str());
    r.append("\"\n1 VERSIONINFO\nFILEVERSION ");
    r.append(numeric.as_str());
    r.append("\nPRODUCTVERSION ");
    r.append(numeric.as_str());
    r.append(
        "\nFILEOS 0x40004\nFILETYPE 0x1\nBEGIN\n  BLOCK \"StringFileInfo\"\n  BEGIN\n    BLOCK \"041904B0\"\n    BEGIN\n      VALUE \"CompanyName\", \"midnightheartsgames\"\n      VALUE \"FileDescription\", \"MH Monitoring — оверлей производительности\"\n      VALUE \"FileVersion\", \"",
    );
    r.append(version);
    r.append(
        "\"\n      VALUE \"InternalName\", \"MH-Monitoring\"\n      VALUE \"OriginalFilename\", \"MH-Monitoring.exe\"\n      VALUE \"ProductName\", \"MH Monitoring\"\n      VALUE \"ProductVersion\", \"",
    );
    r.append(version);
    r.append(
        "\"\n    END\n  END\n  BLOCK \"VarFileInfo\"\n  BEGIN\n    VALUE \"Translation\", 0x419, 1200\n  END\nEND\n",
    );
    r
}

proof fn lemma_version_word(word: Seq<char>, part: Seq<char>, rest: Seq<char>, limit: nat)
    requires
        limit > 0,
        forall|i: int| 0 <= i < part.len() ==> #[trigger] part[i] != '.' && part[i] != '-',
    ensures
        version_numbers(word, part + rest, limit) == version_numbers(word + part, rest, limit),
    decreases part.len(),
{
    if part.len() == 0 {
        assert(part + rest =~= rest);
        assert(word + part =~= word);
    } else {
        assert((part + rest)[0] == part[0]);
        assert((part + rest).skip(1) =~= part.skip(1) + rest);
        assert forall|i: int| 0 <= i < part.skip(1).len() implies #[trigger] part.skip(1)[i] != '.'
            && part.skip(1)[i] != '-' by {
            assert(part.skip(1)[i] == part[i + 1]);
        }
        lemma_version_word(word.push(part[0]), part.skip(1), rest, limit);
        assert(word.push(part[0]) + part.skip(1) =~= word + part);
    }
}

proof fn lemma_version_part(n: u32, rest: Seq<char>, limit: nat)
    requires
        limit > 0,
    ensures
        version_numbers(seq![], crate::text::decimal(n as nat) + (seq!['.'] + rest), limit)
            == seq![n] + version_numbers(seq![], rest, (limit - 1) as nat),
        version_numbers(seq![], crate::text::decimal(n as nat), limit) == seq![n],
{
    let part = crate::text::decimal(n as nat);
    crate::text::lemma_decimal_digits(n as nat);
    crate::text::lemma_decimal_reads_back(n as nat, u32::MAX as nat);
    assert forall|i: int| 0 <= i < part.len() implies #[trigger] part[i] != '.' && part[i] != '-' by {
        assert(crate::text::is_digit(part[i]));
    }
    lemma_version_word(seq![], part, seq!['.'] + rest, limit);
    lemma_version_word(seq![], part, seq![], limit);
    assert(seq![] + part =~= part);
    assert(part + seq![] =~= part);
    assert((seq!['.'] + rest).skip(1) =~= rest);
}

/// The numbers of a version stand in their order, and what is missing of four is zero.
pub proof fn law_versions_have_four_numbers(a: u32, b: u32, c: u32, d: u32)
    ensures
        ({
            let text = |n: u32| crate::text::decimal(n as nat);
            let point = seq!['.'];
            &&& four_numbers(text(a) + (point + (text(b) + (point + (text(c) + (point + text(d)))))))
                == seq![a, b, c, d]
            &&& four_numbers(text(a) + (point + (text(b) + (point + text(c))))) == seq![a, b, c, 0]
            &&& four_numbers(text(a)) == seq![a, 0, 0, 0]
        }),
{
    let text = |n: u32| crate::text::decimal(n as nat);
    let point = seq!['.'];
    lemma_version_part(d, seq![], 1);
    lemma_version_part(c, text(d), 2);
    lemma_version_part(c, seq![], 2);
    lemma_version_part(b, text(c) + (point + text(d)), 3);
    lemma_version_part(b, text(c), 3);
    lemma_version_part(a, text(b) + (point + (text(c) + (point + text(d)))), 4);
    lemma_version_part(a, text(b) + (point + text(c)), 4);
    lemma_version_part(a, seq![], 4);
    assert(four_numbers(text(a) + (point + (text(b) + (point + (text(c) + (point + text(d)))))))
        =~= seq![a, b, c, d]);
    assert(four_numbers(text(a) + (point + (text(b) + (point + text(c))))) =~= seq![a, b, c, 0]);
    assert(four_numbers(text(a)) =~= seq![a, 0, 0, 0]);
}

/// The service that is packed is the one that was named, else the one beside the program that is
/// built.
pub proof fn law_named_service_goes_first(
    named: Option<String>,
    folder: Option<String>,
    r: String,
)
    requires
        call_ensures(service_source, (&named, &folder), r),
    ensures
        named is Some ==> r@ == named->0@,
        named is None && folder is Some ==> r@ == crate::paths::joined_path(
            folder->0@,
            "MH-Monitoring-Service.exe"@,
        ),
        named is None && folder is None ==> r@ == "MH-Monitoring-Service.exe"@,
{
}

} // verus!
