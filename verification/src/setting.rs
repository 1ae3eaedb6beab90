//! The kinds of `*SETTING.DAT` files.

use vstd::prelude::*;

use crate::text::same_text;

verus! {

/// Kind of a settings file.
#[derive(Debug, Clone, Copy, PartialEq, Eq, Structural)]
pub enum SettingType {
    DevSetting,
    DJMMySetting,
    MySetting,
    MySetting2,
}

impl SettingType {
    /// The name of the file that holds settings of this kind.
    pub open spec fn file_name(&self) -> Seq<char> {
        match self {
            SettingType::DevSetting => "DEVSETTING.DAT"@,
            SettingType::DJMMySetting => "DJMMYSETTING.DAT"@,
            SettingType::MySetting => "MYSETTING.DAT"@,
            SettingType::MySetting2 => "MYSETTING2.DAT"@,
        }
    }

    /// The kind of settings that the file of the given name holds.
    pub open spec fn of_file_name(name: Seq<char>) -> Option<SettingType> {
        if name == "DEVSETTING.DAT"@ {
            Some(SettingType::DevSetting)
        } else if name == "DJMMYSETTING.DAT"@ {
            Some(SettingType::DJMMySetting)
        } else if name == "MYSETTING.DAT"@ {
            Some(SettingType::MySetting)
        } else if name == "MYSETTING2.DAT"@ {
            Some(SettingType::MySetting2)
        } else {
            None
        }
    }

    /// The kind of settings that the file of the given name holds.
    pub fn from_filename(filename: &str) -> (r: Option<SettingType>)
        ensures
            r == SettingType::of_file_name(filename@),
    {
        if same_text(filename, "DEVSETTING.DAT") {
            Some(SettingType::DevSetting)
        } else if same_text(filename, "DJMMYSETTING.DAT") {
            Some(SettingType::DJMMySetting)
        } else if same_text(filename, "MYSETTING.DAT") {
            Some(SettingType::MySetting)
        } else if same_text(filename, "MYSETTING2.DAT") {
            Some(SettingType::MySetting2)
        } else {
            None
        }
    }
}

/// The file name of a kind leads back to that kind and to no other.
pub proof fn law_file_names_identify(kind: SettingType, name: Seq<char>)
    ensures
        SettingType::of_file_name(kind.file_name()) == Some(kind),
        SettingType::of_file_name(name) == Some(kind) ==> name == kind.file_name(),
{
    reveal_strlit("DEVSETTING.DAT");
    reveal_strlit("DJMMYSETTING.DAT");
    reveal_strlit("MYSETTING.DAT");
    reveal_strlit("MYSETTING2.DAT");
    assert("DEVSETTING.DAT"@.len() == 14);
    assert("DJMMYSETTING.DAT"@.len() == 16);
    assert("MYSETTING.DAT"@.len() == 13);
    assert("MYSETTING2.DAT"@.len() == 14);
    assert("DEVSETTING.DAT"@[0] != "MYSETTING2.DAT"@[0]);
}

/// Each kind of settings has one file name, written in upper case, and no other name has a kind.
pub proof fn law_names_of_setting_files(name: Seq<char>)
    ensures
        SettingType::of_file_name(name) == Some(SettingType::DevSetting) <==> name
            == "DEVSETTING.DAT"@,
        SettingType::of_file_name(name) == Some(SettingType::DJMMySetting) <==> name
            == "DJMMYSETTING.DAT"@,
        SettingType::of_file_name(name) == Some(SettingType::MySetting) <==> name
            == "MYSETTING.DAT"@,
        SettingType::of_file_name(name) == Some(SettingType::MySetting2) <==> name
            == "MYSETTING2.DAT"@,
{
    law_file_names_identify(SettingType::DevSetting, name);
    law_file_names_identify(SettingType::DJMMySetting, name);
    law_file_names_identify(SettingType::MySetting, name);
    law_file_names_identify(SettingType::MySetting2, name);
}

} // verus!
