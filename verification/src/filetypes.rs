use crate::text::{
    all_ascii_letters, ascii_lowercase, same_text, to_lowercase, unicode_lowercase,
};
use vstd::prelude::*;

verus! {

/// The kinds of file that the archiver recognises by their extension.
#[derive(Clone, Copy, Debug, PartialEq, Eq, Structural)]
pub enum Extensions {
    Xlsx,
    Csv,
    Xls,
    Xlsm,
    Txt,
    Tmp,
    Eml,
}

/// Every kind of file, in the order `generate_set` lists them.
pub open spec fn all_extensions() -> Seq<Extensions> {
    seq![
        Extensions::Xlsx,
        Extensions::Csv,
        Extensions::Xls,
        Extensions::Xlsm,
        Extensions::Txt,
        Extensions::Tmp,
        Extensions::Eml,
    ]
}

/// The kind of file whose lower-case extension is `name`.
pub open spec fn extension_named(name: Seq<char>) -> Option<Extensions> {
    if name == seq!['x', 'l', 's', 'x'] {
        Some(Extensions::Xlsx)
    } else if name == seq!['c', 's', 'v'] {
        Some(Extensions::Csv)
    } else if name == seq!['x', 'l', 's'] {
        Some(Extensions::Xls)
    } else if name == seq!['x', 'l', 's', 'm'] {
        Some(Extensions::Xlsm)
    } else if name == seq!['t', 'x', 't'] {
        Some(Extensions::Txt)
    } else if name == seq!['t', 'm', 'p'] {
        Some(Extensions::Tmp)
    } else if name == seq!['e', 'm', 'l'] {
        Some(Extensions::Eml)
    } else {
        None
    }
}

/// Every kind of file is listed by `generate_set`, exactly once.
pub proof fn lemma_all_extensions_listed(e: Extensions)
    ensures
        all_extensions().contains(e),
        forall|i: int, j: int|
            0 <= i < j < all_extensions().len() ==> all_extensions()[i] != all_extensions()[j],
{
    let s = all_extensions();
    match e {
        Extensions::Xlsx => assert(s[0] == e),
        Extensions::Csv => assert(s[1] == e),
        Extensions::Xls => assert(s[2] == e),
        Extensions::Xlsm => assert(s[3] == e),
        Extensions::Txt => assert(s[4] == e),
        Extensions::Tmp => assert(s[5] == e),
        Extensions::Eml => assert(s[6] == e),
    }
}

/// The extension, in small letters, that names each kind of file.
pub open spec fn extension_name(e: Extensions) -> Seq<char> {
    match e {
        Extensions::Xlsx => seq!['x', 'l', 's', 'x'],
        Extensions::Csv => seq!['c', 's', 'v'],
        Extensions::Xls => seq!['x', 'l', 's'],
        Extensions::Xlsm => seq!['x', 'l', 's', 'm'],
        Extensions::Txt => seq!['t', 'x', 't'],
        Extensions::Tmp => seq!['t', 'm', 'p'],
        Extensions::Eml => seq!['e', 'm', 'l'],
    }
}

/// Every kind of file is reached by an extension: its name is made of ASCII
/// letters, lowercasing leaves it as it is, and it names that kind, which
/// `generate_set` lists. With the contract of `from_extension`, that name
/// (in any mix of capitals and small letters) gives that kind.
pub proof fn lemma_every_kind_named(e: Extensions)
    ensures
        all_ascii_letters(extension_name(e)),
        ascii_lowercase(extension_name(e)) == extension_name(e),
        extension_named(extension_name(e)) == Some(e),
        all_extensions().contains(e),
{
    let n = extension_name(e);
    assert(ascii_lowercase(n) =~= n);
    lemma_all_extensions_listed(e);
}

/// Only the name of a kind gives that kind: every text that names a kind is
/// that kind's extension name, so any other extension names no kind.
pub proof fn lemma_only_kind_names(name: Seq<char>, e: Extensions)
    requires
        extension_named(name) == Some(e),
    ensures
        name == extension_name(e),
{
}

impl Extensions {
    /// All kinds of file that the archiver handles.
    pub fn generate_set() -> (res: Vec<Self>)
        ensures
            res@ == all_extensions(),
    {
        let res = vec![
            Extensions::Xlsx,
            Extensions::Csv,
            Extensions::Xls,
            Extensions::Xlsm,
            Extensions::Txt,
            Extensions::Tmp,
            Extensions::Eml,
        ];
        assert(res@ =~= all_extensions());
        res
    }

    /// The kind of file whose extension, already in lower case, is `name`.
    pub fn from_lowercase_name(name: &str) -> (res: Option<Self>)
        ensures
            res == extension_named(name@),
    {
        proof {
            reveal_strlit("xlsx");
            assert("xlsx"@ =~= seq!['x', 'l', 's', 'x']);
            reveal_strlit("csv");
            assert("csv"@ =~= seq!['c', 's', 'v']);
            reveal_strlit("xls");
            assert("xls"@ =~= seq!['x', 'l', 's']);
            reveal_strlit("xlsm");
            assert("xlsm"@ =~= seq!['x', 'l', 's', 'm']);
            reveal_strlit("txt");
            assert("txt"@ =~= seq!['t', 'x', 't']);
            reveal_strlit("tmp");
            assert("tmp"@ =~= seq!['t', 'm', 'p']);
            reveal_strlit("eml");
            assert("eml"@ =~= seq!['e', 'm', 'l']);
        }
        if same_text(name, "xlsx") {
            Some(Extensions::Xlsx)
        } else if same_text(name, "csv") {
            Some(Extensions::Csv)
        } else if same_text(name, "xls") {
            Some(Extensions::Xls)
        } else if same_text(name, "xlsm") {
            Some(Extensions::Xlsm)
        } else if same_text(name, "txt") {
            Some(Extensions::Txt)
        } else if same_text(name, "tmp") {
            Some(Extensions::Tmp)
        } else if same_text(name, "eml") {
            Some(Extensions::Eml)
        } else {
            None
        }
    }

    /// The kind of file with extension `ext`, in any letter case.
    pub fn from_extension(ext: &str) -> (res: Option<Self>)
        ensures
            res == extension_named(unicode_lowercase(ext@)),
            all_ascii_letters(ext@) ==> res == extension_named(ascii_lowercase(ext@)),
    {
        let lower = to_lowercase(ext);
        Self::from_lowercase_name(lower.as_str())
    }
}

/// Whether `kinds` lists `kind`.
pub fn lists_extension(kinds: &Vec<Extensions>, kind: Extensions) -> (res: bool)
    ensures
        res == kinds@.contains(kind),
{
    let mut i: usize = 0;
    while i < kinds.len()
        invariant
            0 <= i <= kinds.len(),
            forall|j: int| 0 <= j < i ==> kinds@[j] != kind,
        decreases kinds.len() - i,
    {
        if kinds[i] == kind {
            assert(kinds@[i as int] == kind);
            return true;
        }
        i = i + 1;
    }
    false
}

} // verus!
