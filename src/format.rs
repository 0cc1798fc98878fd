use vstd::prelude::*;

verus! {

/// The logical category of an input file. A backend uses it to choose where
/// and how to look for a name; it says nothing about encoding or compression.
#[derive(Clone, Copy, Debug, PartialEq, Eq, Structural)]
pub enum FileFormat {
    Pk,
    Tfm,
    Afm,
    Bib,
    Bst,
    Cnf,
    Format,
    FontMap,
    Ofm,
    Ovf,
    Pict,
    Tex,
    TexPsHeader,
    Type1,
    Vf,
    TrueType,
    ProgramText,
    ProgramBinary,
    MiscFonts,
    Enc,
    Cmap,
    Sfd,
    OpenType,
}

/// The integer code under which the native engine names each format
/// (the numbering of kpathsea's `kpse_file_format_type`).
pub open spec fn code_of(f: FileFormat) -> int {
    match f {
        FileFormat::Pk => 1,
        FileFormat::Tfm => 3,
        FileFormat::Afm => 4,
        FileFormat::Bib => 6,
        FileFormat::Bst => 7,
        FileFormat::Cnf => 8,
        FileFormat::Format => 10,
        FileFormat::FontMap => 11,
        FileFormat::Ofm => 20,
        FileFormat::Ovf => 23,
        FileFormat::Pict => 25,
        FileFormat::Tex => 26,
        FileFormat::TexPsHeader => 30,
        FileFormat::Type1 => 32,
        FileFormat::Vf => 33,
        FileFormat::TrueType => 36,
        FileFormat::ProgramText => 39,
        FileFormat::ProgramBinary => 40,
        FileFormat::MiscFonts => 41,
        FileFormat::Enc => 44,
        FileFormat::Cmap => 45,
        FileFormat::Sfd => 46,
        FileFormat::OpenType => 47,
    }
}

/// The format a code names, if any: the one format whose code it is.
pub open spec fn format_of(code: int) -> Option<FileFormat> {
    if exists|f: FileFormat| code_of(f) == code {
        Some(choose|f: FileFormat| code_of(f) == code)
    } else {
        None
    }
}

/// No two formats share a code.
pub proof fn lemma_code_of_injective(f: FileFormat, g: FileFormat)
    ensures
        code_of(f) == code_of(g) <==> f == g,
{
}

/// The integer code of a format.
pub fn format_code(f: FileFormat) -> (r: i32)
    ensures
        r as int == code_of(f),
{
    match f {
        FileFormat::Pk => 1,
        FileFormat::Tfm => 3,
        FileFormat::Afm => 4,
        FileFormat::Bib => 6,
        FileFormat::Bst => 7,
        FileFormat::Cnf => 8,
        FileFormat::Format => 10,
        FileFormat::FontMap => 11,
        FileFormat::Ofm => 20,
        FileFormat::Ovf => 23,
        FileFormat::Pict => 25,
        FileFormat::Tex => 26,
        FileFormat::TexPsHeader => 30,
        FileFormat::Type1 => 32,
        FileFormat::Vf => 33,
        FileFormat::TrueType => 36,
        FileFormat::ProgramText => 39,
        FileFormat::ProgramBinary => 40,
        FileFormat::MiscFonts => 41,
        FileFormat::Enc => 44,
        FileFormat::Cmap => 45,
        FileFormat::Sfd => 46,
        FileFormat::OpenType => 47,
    }
}

/// Maps a code from the native engine to its format; an unknown code gives
/// `None` and never a default format.
pub fn c_format_to_rust(code: i32) -> (r: Option<FileFormat>)
    ensures
        r == format_of(code as int),
        r matches Some(f) ==> code_of(f) == code as int,
{
    let r = match code {
        1 => Some(FileFormat::Pk),
        3 => Some(FileFormat::Tfm),
        4 => Some(FileFormat::Afm),
        6 => Some(FileFormat::Bib),
        7 => Some(FileFormat::Bst),
        8 => Some(FileFormat::Cnf),
        10 => Some(FileFormat::Format),
        11 => Some(FileFormat::FontMap),
        20 => Some(FileFormat::Ofm),
        23 => Some(FileFormat::Ovf),
        25 => Some(FileFormat::Pict),
        26 => Some(FileFormat::Tex),
        30 => Some(FileFormat::TexPsHeader),
        32 => Some(FileFormat::Type1),
        33 => Some(FileFormat::Vf),
        36 => Some(FileFormat::TrueType),
        39 => Some(FileFormat::ProgramText),
        40 => Some(FileFormat::ProgramBinary),
        41 => Some(FileFormat::MiscFonts),
        44 => Some(FileFormat::Enc),
        45 => Some(FileFormat::Cmap),
        46 => Some(FileFormat::Sfd),
        47 => Some(FileFormat::OpenType),
        _ => None,
    };
    proof {
        match r {
            Some(f) => {
                assert(code_of(f) == code as int);
                assert forall|g: FileFormat| code_of(g) == code as int implies g == f by {
                    lemma_code_of_injective(f, g);
                }
            },
            None => {
                assert forall|g: FileFormat| code_of(g) != code as int by {
                    match g {
                        _ => {},
                    }
                }
            },
        }
    }
    r
}

/// Every format survives the trip to its code and back, every code that is
/// recognised survives the trip to its format and back, and a code that no
/// format carries names none.
pub proof fn lemma_format_round_trip(f: FileFormat, code: int)
    ensures
        format_of(code_of(f)) == Some(f),
        format_of(code) matches Some(g) ==> code_of(g) == code,
        (exists|g: FileFormat| code_of(g) == code) <==> format_of(code) is Some,
{
    let g = choose|g: FileFormat| code_of(g) == code_of(f);
    assert(code_of(g) == code_of(f));
    lemma_code_of_injective(f, g);
}

} // verus!
