//! File formats and save modes, and their names.
use vstd::prelude::*;
use vstd::string::*;

use crate::error::{state_error, DbNativeResult};
use crate::text::{
    ascii_lowercase, is_white_space, law_trimmed_text_stays, lemma_trim_padding, lowered,
    optional_str, same_text, trim, trimmed,
};

verus! {

/// A file format that query results can be saved in.
#[derive(Debug, Clone, Copy, PartialEq, Eq, Structural)]
pub enum SaveFormat {
    Csv,
    Excel,
    Json,
    Orc,
    Parquet,
}

/// What happens to a file that is there already.
#[derive(Debug, Clone, Copy, PartialEq, Eq, Structural)]
pub enum SaveMode {
    Overwrite,
    Append,
}

/// A name as it is compared: without white space around it, and in lower case.
pub open spec fn plain_name(name: Seq<char>) -> Seq<char> {
    lowered(trimmed(name))
}

/// The format with the given name.
pub open spec fn format_named(name: Seq<char>) -> Option<SaveFormat> {
    let plain = plain_name(name);
    if plain == "csv"@ {
        Some(SaveFormat::Csv)
    } else if plain == "excel"@ || plain == "xlsx"@ {
        Some(SaveFormat::Excel)
    } else if plain == "json"@ {
        Some(SaveFormat::Json)
    } else if plain == "orc"@ {
        Some(SaveFormat::Orc)
    } else if plain == "parquet"@ {
        Some(SaveFormat::Parquet)
    } else {
        None
    }
}

/// The mode with the given name; without a name, or with a blank one, files are overwritten.
pub open spec fn mode_named(name: Option<Seq<char>>) -> Option<SaveMode> {
    match name {
        None => Some(SaveMode::Overwrite),
        Some(name) => {
            let plain = plain_name(name);
            if plain == ""@ || plain == "overwrite"@ {
                Some(SaveMode::Overwrite)
            } else if plain == "append"@ {
                Some(SaveMode::Append)
            } else {
                None
            }
        },
    }
}

/// Why a name is no format.
pub open spec fn unsupported_format(name: Seq<char>) -> Seq<char> {
    "Unsupported save file type: "@ + plain_name(name)
        + ", please use csv, excel, json, orc, or parquet"@
}

/// Why a name is no mode.
pub open spec fn unsupported_mode(name: Seq<char>) -> Seq<char> {
    "Unsupported save mode: "@ + plain_name(name) + ", please use overwrite or append"@
}

impl SaveFormat {
    /// The format with the given name.
    pub fn parse(file_type: &str) -> (r: DbNativeResult<SaveFormat>)
        ensures
            match r {
                Ok(format) => format_named(file_type@) == Some(format),
                Err(error) => format_named(file_type@) is None && error.reason@
                    == unsupported_format(file_type@),
            },
    {
        let plain: String = ascii_lowercase(trim(file_type));
        if same_text(plain.as_str(), "csv") {
            Ok(SaveFormat::Csv)
        } else if same_text(plain.as_str(), "excel") || same_text(plain.as_str(), "xlsx") {
            Ok(SaveFormat::Excel)
        } else if same_text(plain.as_str(), "json") {
            Ok(SaveFormat::Json)
        } else if same_text(plain.as_str(), "orc") {
            Ok(SaveFormat::Orc)
        } else if same_text(plain.as_str(), "parquet") {
            Ok(SaveFormat::Parquet)
        } else {
            let mut reason: String = "Unsupported save file type: ".to_owned();
            reason.append(plain.as_str());
            reason.append(", please use csv, excel, json, orc, or parquet");
            Err(state_error(reason.as_str()))
        }
    }

    /// The name of the format.
    pub open spec fn name(self) -> Seq<char> {
        match self {
            SaveFormat::Csv => "csv"@,
            SaveFormat::Excel => "excel"@,
            SaveFormat::Json => "json"@,
            SaveFormat::Orc => "orc"@,
            SaveFormat::Parquet => "parquet"@,
        }
    }

    /// The name of the format.
    pub fn as_str(self) -> (r: &'static str)
        ensures
            r@ == self.name(),
    {
        match self {
            SaveFormat::Csv => "csv",
            SaveFormat::Excel => "excel",
            SaveFormat::Json => "json",
            SaveFormat::Orc => "orc",
            SaveFormat::Parquet => "parquet",
        }
    }
}

impl SaveMode {
    /// The mode with the given name.
    pub fn parse(mode: Option<&str>) -> (r: DbNativeResult<SaveMode>)
        ensures
            match r {
                Ok(parsed) => mode_named(optional_str(mode)) == Some(parsed),
                Err(error) => mode_named(optional_str(mode)) is None && mode is Some
                    && error.reason@ == unsupported_mode(mode.unwrap()@),
            },
    {
        let name: &str = match mode {
            Some(name) => name,
            None => {
                return Ok(SaveMode::Overwrite);
            },
        };
        let plain: String = ascii_lowercase(trim(name));
        if same_text(plain.as_str(), "") || same_text(plain.as_str(), "overwrite") {
            Ok(SaveMode::Overwrite)
        } else if same_text(plain.as_str(), "append") {
            Ok(SaveMode::Append)
        } else {
            let mut reason: String = "Unsupported save mode: ".to_owned();
            reason.append(plain.as_str());
            reason.append(", please use overwrite or append");
            Err(state_error(reason.as_str()))
        }
    }
}

/// The name of a format names that format.
pub proof fn law_format_name_reads_back(format: SaveFormat)
    ensures
        format_named(format.name()) == Some(format),
{
    let name = format.name();
    reveal_strlit("csv");
    reveal_strlit("excel");
    reveal_strlit("xlsx");
    reveal_strlit("json");
    reveal_strlit("orc");
    reveal_strlit("parquet");
    assert(trimmed(name) == name);
    assert(lowered(name) =~= name);
}

/// White space around a name makes no difference to the format or the mode that it names.
pub proof fn law_padding_makes_no_difference(before: Seq<char>, name: Seq<char>, after: Seq<char>)
    requires
        forall|i: int| 0 <= i < before.len() ==> is_white_space(#[trigger] before[i]),
        forall|i: int| 0 <= i < after.len() ==> is_white_space(#[trigger] after[i]),
    ensures
        format_named(before + name + after) == format_named(name),
        mode_named(Some(before + name + after)) == mode_named(Some(name)),
{
    lemma_trim_padding(before, name, after);
}

/// A name without white space around it names a format exactly where it is, in lower case, `csv`,
/// `excel` or `xlsx`, `json`, `orc` or `parquet`.
pub proof fn law_names_of_formats(name: Seq<char>)
    requires
        name.len() > 0 ==> !is_white_space(name.first()) && !is_white_space(name.last()),
    ensures
        format_named(name) == Some(SaveFormat::Csv) <==> lowered(name) == "csv"@,
        format_named(name) == Some(SaveFormat::Excel) <==> lowered(name) == "excel"@ || lowered(name)
            == "xlsx"@,
        format_named(name) == Some(SaveFormat::Json) <==> lowered(name) == "json"@,
        format_named(name) == Some(SaveFormat::Orc) <==> lowered(name) == "orc"@,
        format_named(name) == Some(SaveFormat::Parquet) <==> lowered(name) == "parquet"@,
{
    reveal_strlit("csv");
    reveal_strlit("excel");
    reveal_strlit("xlsx");
    reveal_strlit("json");
    reveal_strlit("orc");
    reveal_strlit("parquet");
    law_trimmed_text_stays(name);
    assert("csv"@[0] == 'c' && "excel"@.len() == 5 && "xlsx"@[0] == 'x' && "json"@[0] == 'j'
        && "orc"@[0] == 'o' && "parquet"@.len() == 7 && "csv"@.len() == 3 && "xlsx"@.len() == 4
        && "json"@.len() == 4 && "orc"@.len() == 3);
}

/// A name without white space around it names the mode `append` exactly where it is that word in
/// lower case, and `overwrite` where it is that word or nothing; without a name files are
/// overwritten.
pub proof fn law_names_of_modes(name: Seq<char>)
    requires
        name.len() > 0 ==> !is_white_space(name.first()) && !is_white_space(name.last()),
    ensures
        mode_named(Some(name)) == Some(SaveMode::Append) <==> lowered(name) == "append"@,
        mode_named(Some(name)) == Some(SaveMode::Overwrite) <==> lowered(name) == "overwrite"@
            || name.len() == 0,
        mode_named(None) == Some(SaveMode::Overwrite),
{
    reveal_strlit("");
    reveal_strlit("overwrite");
    reveal_strlit("append");
    law_trimmed_text_stays(name);
    assert("append"@.len() == 6 && "overwrite"@.len() == 9 && ""@.len() == 0);
    assert(lowered(name).len() == name.len());
    if name.len() == 0 {
        assert(lowered(name) =~= ""@);
    }
}

/// A format is called by its name, and a name that is refused is told as it is compared: without
/// white space around it and in lower case.
pub proof fn law_refused_names_are_told(
    before: Seq<char>,
    name: Seq<char>,
    after: Seq<char>,
)
    requires
        forall|i: int| 0 <= i < before.len() ==> is_white_space(#[trigger] before[i]),
        forall|i: int| 0 <= i < after.len() ==> is_white_space(#[trigger] after[i]),
        name.len() > 0 ==> !is_white_space(name.first()) && !is_white_space(name.last()),
    ensures
        plain_name(before + name + after) == lowered(name),
        unsupported_format(before + name + after) == "Unsupported save file type: "@ + lowered(name)
            + ", please use csv, excel, json, orc, or parquet"@,
        unsupported_mode(before + name + after) == "Unsupported save mode: "@ + lowered(name)
            + ", please use overwrite or append"@,
        SaveFormat::Csv.name() == "csv"@,
        SaveFormat::Excel.name() == "excel"@,
        SaveFormat::Json.name() == "json"@,
        SaveFormat::Orc.name() == "orc"@,
        SaveFormat::Parquet.name() == "parquet"@,
{
    lemma_trim_padding(before, name, after);
    law_trimmed_text_stays(name);
}

} // verus!
