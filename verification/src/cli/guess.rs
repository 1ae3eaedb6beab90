//! Guessing the type of a database or settings file from its name and from the command line.

use vstd::prelude::*;

use crate::pdb::DatabaseType;
use crate::setting::SettingType;
use crate::text::same_text;

verus! {

/// The outcome of a guess.
#[derive(Debug, PartialEq, Eq, Structural)]
pub enum Guess<T> {
    /// The path names no file.
    NotAFile,
    /// Neither the command line nor the file name says the type.
    Unsaid,
    /// The type is clear.
    Certain(T),
    /// The command line and the file name differ; the command line wins.
    Overruled { used: T, found: T },
}

impl<T> Guess<T> {
    /// The type to go on with, if any.
    pub open spec fn choice(self) -> Option<T> {
        match self {
            Guess::NotAFile => None,
            Guess::Unsaid => None,
            Guess::Certain(kind) => Some(kind),
            Guess::Overruled { used, found } => Some(used),
        }
    }

    /// The type to go on with, if any.
    pub fn chosen(self) -> (r: Option<T>)
        ensures
            r == self.choice(),
    {
        match self {
            Guess::NotAFile => None,
            Guess::Unsaid => None,
            Guess::Certain(kind) => Some(kind),
            Guess::Overruled { used, found: _ } => Some(used),
        }
    }
}

/// The outcome for a file, given what the command line and what the file name say.
pub open spec fn weighed<T>(flag: Option<T>, found: Option<T>) -> Guess<T> {
    match (flag, found) {
        (None, None) => Guess::Unsaid,
        (None, Some(kind)) => Guess::Certain(kind),
        (Some(kind), None) => Guess::Certain(kind),
        (Some(used), Some(found)) => if used == found {
            Guess::Certain(used)
        } else {
            Guess::Overruled { used, found }
        },
    }
}

/// The database type that a command-line value stands for.
pub open spec fn db_type_of_flag(flag: Option<Seq<char>>) -> Option<DatabaseType> {
    match flag {
        Some(text) => if text == "plain"@ {
            Some(DatabaseType::Plain)
        } else if text == "ext"@ {
            Some(DatabaseType::Ext)
        } else {
            None
        },
        None => None,
    }
}

/// The database type that a file name stands for.
pub open spec fn db_type_of_name(name: Seq<char>) -> Option<DatabaseType> {
    if name == "export.pdb"@ {
        Some(DatabaseType::Plain)
    } else if name == "exportExt.pdb"@ {
        Some(DatabaseType::Ext)
    } else {
        None
    }
}

/// The text of an optional command-line value.
pub open spec fn flag_text(flag: Option<&str>) -> Option<Seq<char>> {
    match flag {
        Some(text) => Some(text@),
        None => None,
    }
}

/// Guesses the type of a database from the last name of its path and from the command line, which
/// offers the values `plain` and `ext` only.
pub fn guess_db_type(file_name: Option<&str>, db_type: Option<&str>) -> (r: Guess<DatabaseType>)
    requires
        db_type is Some ==> db_type_of_flag(flag_text(db_type)) is Some,
    ensures
        r == match file_name {
            None => Guess::NotAFile,
            Some(name) => weighed(db_type_of_flag(flag_text(db_type)), db_type_of_name(name@)),
        },
{
    let flag: Option<DatabaseType> = match db_type {
        Some(text) => if same_text(text, "plain") {
            Some(DatabaseType::Plain)
        } else {
            Some(DatabaseType::Ext)
        },
        None => None,
    };
    let found: Option<DatabaseType> = match file_name {
        None => {
            return Guess::NotAFile;
        },
        Some(name) => if same_text(name, "export.pdb") {
            Some(DatabaseType::Plain)
        } else if same_text(name, "exportExt.pdb") {
            Some(DatabaseType::Ext)
        } else {
            None
        },
    };
    match (flag, found) {
        (None, None) => Guess::Unsaid,
        (None, Some(kind)) => Guess::Certain(kind),
        (Some(kind), None) => Guess::Certain(kind),
        (Some(used), Some(found)) => if used == found {
            Guess::Certain(used)
        } else {
            Guess::Overruled { used, found }
        },
    }
}

/// The settings type that a command-line value stands for.
pub open spec fn setting_type_of_flag(flag: Option<Seq<char>>) -> Option<SettingType> {
    match flag {
        Some(text) => if text == "devsetting"@ {
            Some(SettingType::DevSetting)
        } else if text == "djmmysetting"@ {
            Some(SettingType::DJMMySetting)
        } else if text == "mysetting"@ {
            Some(SettingType::MySetting)
        } else if text == "mysetting2"@ {
            Some(SettingType::MySetting2)
        } else {
            None
        },
        None => None,
    }
}

/// Guesses the type of a settings file from the last name of its path and from the command line,
/// which offers the values `devsetting`, `djmmysetting`, `mysetting` and `mysetting2` only.
pub fn guess_setting_type(file_name: Option<&str>, setting_type: Option<&str>) -> (r: Guess<
    SettingType,
>)
    requires
        setting_type is Some ==> setting_type_of_flag(flag_text(setting_type)) is Some,
    ensures
        r == match file_name {
            None => Guess::NotAFile,
            Some(name) => weighed(
                setting_type_of_flag(flag_text(setting_type)),
                SettingType::of_file_name(name@),
            ),
        },
{
    let flag: Option<SettingType> = match setting_type {
        Some(text) => if same_text(text, "devsetting") {
            Some(SettingType::DevSetting)
        } else if same_text(text, "djmmysetting") {
            Some(SettingType::DJMMySetting)
        } else if same_text(text, "mysetting") {
            Some(SettingType::MySetting)
        } else {
            Some(SettingType::MySetting2)
        },
        None => None,
    };
    let found: Option<SettingType> = match file_name {
        None => {
            return Guess::NotAFile;
        },
        Some(name) => SettingType::from_filename(name),
    };
    match (flag, found) {
        (None, None) => Guess::Unsaid,
        (None, Some(kind)) => Guess::Certain(kind),
        (Some(kind), None) => Guess::Certain(kind),
        (Some(used), Some(found)) => if used == found {
            Guess::Certain(used)
        } else {
            Guess::Overruled { used, found }
        },
    }
}

/// Whatever the file name says, a type given on the command line is the one that is used.
pub proof fn law_command_line_wins<T>(used: T, found: Option<T>)
    ensures
        weighed(Some(used), found).choice() == Some(used),
{
}

/// A file name says a type just where it is the name of one of the two databases.
pub proof fn law_database_names(name: Seq<char>)
    ensures
        db_type_of_name(name) == Some(DatabaseType::Plain) <==> name == "export.pdb"@,
        db_type_of_name(name) == Some(DatabaseType::Ext) <==> name == "exportExt.pdb"@,
        db_type_of_name(name) is None <==> name != "export.pdb"@ && name != "exportExt.pdb"@,
{
    reveal_strlit("export.pdb");
    reveal_strlit("exportExt.pdb");
    assert("export.pdb"@.len() != "exportExt.pdb"@.len());
}

/// Each value of the command line stands for the type it is named after.
pub proof fn law_flags()
    ensures
        db_type_of_flag(Some("plain"@)) == Some(DatabaseType::Plain),
        db_type_of_flag(Some("ext"@)) == Some(DatabaseType::Ext),
        setting_type_of_flag(Some("devsetting"@)) == Some(SettingType::DevSetting),
        setting_type_of_flag(Some("djmmysetting"@)) == Some(SettingType::DJMMySetting),
        setting_type_of_flag(Some("mysetting"@)) == Some(SettingType::MySetting),
        setting_type_of_flag(Some("mysetting2"@)) == Some(SettingType::MySetting2),
        db_type_of_flag(None) is None,
        setting_type_of_flag(None) is None,
{
    reveal_strlit("plain");
    reveal_strlit("ext");
    reveal_strlit("devsetting");
    reveal_strlit("djmmysetting");
    reveal_strlit("mysetting");
    reveal_strlit("mysetting2");
    assert("plain"@.len() != "ext"@.len());
    assert("devsetting"@.len() == 10);
    assert("djmmysetting"@.len() == 12);
    assert("mysetting"@.len() == 9);
    assert("mysetting2"@.len() == 10);
    assert("devsetting"@[0] != "mysetting2"@[0]);
}

/// Without a word from the command line the file name decides; a guess is overruled just when both
/// speak and differ, and is open just when neither speaks.
pub proof fn law_weighing<T>(flag: Option<T>, found: Option<T>)
    ensures
        flag is None ==> weighed(flag, found).choice() == found,
        weighed(flag, found) is Overruled <==> flag is Some && found is Some && flag != found,
        weighed(flag, found) matches Guess::Overruled { used, found: other } ==> flag == Some(used)
            && found == Some(other),
        weighed(flag, found) is Unsaid <==> flag is None && found is None,
        weighed(flag, found) !is NotAFile,
{
}

} // verus!
