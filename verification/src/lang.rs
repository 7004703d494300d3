//! The two languages of the admin pages.

use vstd::prelude::*;

use crate::decimal::{law_integer_reads_back, signed_decimal, signed_text};
use crate::text::same_text;

verus! {

/// A language of the admin pages.
#[derive(Clone, Copy, Debug, PartialEq, Eq, Structural)]
pub enum AdminLang {
    Zh,
    En,
}

/// The language that a code asks for: English for `en`, Chinese for everything
/// else.
pub open spec fn lang_of(code: Option<Seq<char>>) -> AdminLang {
    if code == Some("en"@) {
        AdminLang::En
    } else {
        AdminLang::Zh
    }
}

/// The sentence about when devices are swept.
pub open spec fn status_text(lang: AdminLang, days: Option<i64>) -> Seq<char> {
    match (lang, days) {
        (AdminLang::Zh, Some(days)) => "当前：自动删除超过 "@ + signed_decimal(days as int)
            + " 天未更新位置的客户端"@,
        (AdminLang::En, Some(days)) => "Current: automatically delete devices inactive for over "@
            + signed_decimal(days as int) + " days"@,
        (AdminLang::Zh, None) => "当前：未开启自动清理"@,
        (AdminLang::En, None) => "Current: auto cleanup is disabled"@,
    }
}

/// The headings of the columns of the list of devices.
pub open spec fn headings(lang: AdminLang) -> Seq<Seq<char>> {
    match lang {
        AdminLang::Zh => seq![
            "名称"@,
            "平台"@,
            "最后更新"@,
            "最后位置"@,
            "位置记录"@,
            "创建时间"@,
            "操作"@,
        ],
        AdminLang::En => seq![
            "Name"@,
            "Platform"@,
            "Last update"@,
            "Last location"@,
            "Location records"@,
            "Created"@,
            "Actions"@,
        ],
    }
}

impl AdminLang {
    /// The language that a code asks for.
    pub fn from_option(value: Option<&str>) -> (r: AdminLang)
        ensures
            r == lang_of(value.deep_view()),
    {
        match value {
            Some(code) => if same_text(code, "en") {
                AdminLang::En
            } else {
                AdminLang::Zh
            },
            None => AdminLang::Zh,
        }
    }

    /// The code of the language in links and forms.
    #[verifier::allow_in_spec]
    pub fn code(self) -> &'static str
        returns
            (match self {
                AdminLang::Zh => "zh",
                AdminLang::En => "en",
            }),
    {
        match self {
            AdminLang::Zh => "zh",
            AdminLang::En => "en",
        }
    }

    /// The language of the page, as its `html` element names it.
    #[verifier::allow_in_spec]
    pub fn html_lang(self) -> &'static str
        returns
            (match self {
                AdminLang::Zh => "zh-CN",
                AdminLang::En => "en",
            }),
    {
        match self {
            AdminLang::Zh => "zh-CN",
            AdminLang::En => "en",
        }
    }

    /// The title of the pages.
    #[verifier::allow_in_spec]
    pub fn title(self) -> &'static str
        returns
            (match self {
                AdminLang::Zh => "Guideng 管理后台",
                AdminLang::En => "Guideng Admin",
            }),
    {
        match self {
            AdminLang::Zh => "Guideng 管理后台",
            AdminLang::En => "Guideng Admin",
        }
    }

    /// The label of the link to the other language.
    #[verifier::allow_in_spec]
    pub fn switch_label(self) -> &'static str
        returns
            (match self {
                AdminLang::Zh => "English",
                AdminLang::En => "中文",
            }),
    {
        match self {
            AdminLang::Zh => "English",
            AdminLang::En => "中文",
        }
    }

    /// The code of the other language.
    #[verifier::allow_in_spec]
    pub fn switch_code(self) -> &'static str
        returns
            (match self {
                AdminLang::Zh => "en",
                AdminLang::En => "zh",
            }),
    {
        match self {
            AdminLang::Zh => "en",
            AdminLang::En => "zh",
        }
    }

    /// The label of the field for the password.
    #[verifier::allow_in_spec]
    pub fn password_label(self) -> &'static str
        returns
            (match self {
                AdminLang::Zh => "管理密码",
                AdminLang::En => "Admin password",
            }),
    {
        match self {
            AdminLang::Zh => "管理密码",
            AdminLang::En => "Admin password",
        }
    }

    /// The label of the button that logs in.
    #[verifier::allow_in_spec]
    pub fn login(self) -> &'static str
        returns
            (match self {
                AdminLang::Zh => "登录",
                AdminLang::En => "Log in",
            }),
    {
        match self {
            AdminLang::Zh => "登录",
            AdminLang::En => "Log in",
        }
    }

    /// The message about a wrong password.
    #[verifier::allow_in_spec]
    pub fn login_error(self) -> &'static str
        returns
            (match self {
                AdminLang::Zh => "密码不正确",
                AdminLang::En => "Incorrect password",
            }),
    {
        match self {
            AdminLang::Zh => "密码不正确",
            AdminLang::En => "Incorrect password",
        }
    }

    /// The label of the button that logs out.
    #[verifier::allow_in_spec]
    pub fn logout(self) -> &'static str
        returns
            (match self {
                AdminLang::Zh => "退出",
                AdminLang::En => "Log out",
            }),
    {
        match self {
            AdminLang::Zh => "退出",
            AdminLang::En => "Log out",
        }
    }

    /// The heading of the list of devices.
    #[verifier::allow_in_spec]
    pub fn devices(self) -> &'static str
        returns
            (match self {
                AdminLang::Zh => "客户端",
                AdminLang::En => "Devices",
            }),
    {
        match self {
            AdminLang::Zh => "客户端",
            AdminLang::En => "Devices",
        }
    }

    /// What stands in the list where there are no devices.
    #[verifier::allow_in_spec]
    pub fn empty_devices(self) -> &'static str
        returns
            (match self {
                AdminLang::Zh => "暂无客户端",
                AdminLang::En => "No devices",
            }),
    {
        match self {
            AdminLang::Zh => "暂无客户端",
            AdminLang::En => "No devices",
        }
    }

    /// The heading of the form that sweeps devices.
    #[verifier::allow_in_spec]
    pub fn manual_cleanup(self) -> &'static str
        returns
            (match self {
                AdminLang::Zh => "手动清理未更新客户端",
                AdminLang::En => "Manual cleanup of inactive devices",
            }),
    {
        match self {
            AdminLang::Zh => "手动清理未更新客户端",
            AdminLang::En => "Manual cleanup of inactive devices",
        }
    }

    /// The heading of the form that sets when devices are swept.
    #[verifier::allow_in_spec]
    pub fn auto_cleanup(self) -> &'static str
        returns
            (match self {
                AdminLang::Zh => "自动清理设置",
                AdminLang::En => "Auto cleanup settings",
            }),
    {
        match self {
            AdminLang::Zh => "自动清理设置",
            AdminLang::En => "Auto cleanup settings",
        }
    }

    /// The label of the field for a number of days.
    #[verifier::allow_in_spec]
    pub fn days(self) -> &'static str
        returns
            (match self {
                AdminLang::Zh => "天数",
                AdminLang::En => "Days",
            }),
    {
        match self {
            AdminLang::Zh => "天数",
            AdminLang::En => "Days",
        }
    }

    /// The label of the button that sweeps devices.
    #[verifier::allow_in_spec]
    pub fn delete_now(self) -> &'static str
        returns
            (match self {
                AdminLang::Zh => "立即删除",
                AdminLang::En => "Delete now",
            }),
    {
        match self {
            AdminLang::Zh => "立即删除",
            AdminLang::En => "Delete now",
        }
    }

    /// The label of the button that saves the setting.
    #[verifier::allow_in_spec]
    pub fn save_settings(self) -> &'static str
        returns
            (match self {
                AdminLang::Zh => "保存设置",
                AdminLang::En => "Save settings",
            }),
    {
        match self {
            AdminLang::Zh => "保存设置",
            AdminLang::En => "Save settings",
        }
    }

    /// What stands in the field where the setting has no value.
    #[verifier::allow_in_spec]
    pub fn empty_to_disable(self) -> &'static str
        returns
            (match self {
                AdminLang::Zh => "留空关闭",
                AdminLang::En => "Leave empty to disable",
            }),
    {
        match self {
            AdminLang::Zh => "留空关闭",
            AdminLang::En => "Leave empty to disable",
        }
    }

    /// The label of the button that deletes locations.
    #[verifier::allow_in_spec]
    pub fn delete_locations(self) -> &'static str
        returns
            (match self {
                AdminLang::Zh => "删除位置",
                AdminLang::En => "Delete locations",
            }),
    {
        match self {
            AdminLang::Zh => "删除位置",
            AdminLang::En => "Delete locations",
        }
    }

    /// The label of the button that deletes a device.
    #[verifier::allow_in_spec]
    pub fn delete_device(self) -> &'static str
        returns
            (match self {
                AdminLang::Zh => "删除客户端",
                AdminLang::En => "Delete device",
            }),
    {
        match self {
            AdminLang::Zh => "删除客户端",
            AdminLang::En => "Delete device",
        }
    }

    /// The sentence about when devices are swept.
    pub fn auto_status(self, days: Option<i64>) -> (r: String)
        ensures
            r@ == status_text(self, days),
    {
        match (self, days) {
            (AdminLang::Zh, Some(days)) => "当前：自动删除超过 ".to_owned().concat(
                signed_text(days).as_str(),
            ).concat(" 天未更新位置的客户端"),
            (AdminLang::En, Some(days)) => "Current: automatically delete devices inactive for over ".to_owned().concat(
                signed_text(days).as_str(),
            ).concat(" days"),
            (AdminLang::Zh, None) => "当前：未开启自动清理".to_owned(),
            (AdminLang::En, None) => "Current: auto cleanup is disabled".to_owned(),
        }
    }

    /// The headings of the columns of the list of devices.
    pub fn table_headers(self) -> (r: [&'static str; 7])
        ensures
            r@.map_values(|heading: &'static str| heading@) == headings(self),
    {
        let out = match self {
            AdminLang::Zh => [
                "名称",
                "平台",
                "最后更新",
                "最后位置",
                "位置记录",
                "创建时间",
                "操作",
            ],
            AdminLang::En => [
                "Name",
                "Platform",
                "Last update",
                "Last location",
                "Location records",
                "Created",
                "Actions",
            ],
        };
        assert(out@.map_values(|heading: &'static str| heading@) =~= headings(self));
        out
    }
}

/// A language is found again by its code, and the code that the link to the
/// other language carries finds the other one.
pub proof fn law_codes_find_languages(lang: AdminLang)
    ensures
        lang_of(Some(lang.code()@)) == lang,
        lang_of(Some(lang.switch_code()@)) != lang,
{
    reveal_strlit("zh");
    reveal_strlit("en");
    assert("zh"@[0] != "en"@[0]);
}

/// What the labels say, in each of the two languages.
pub proof fn law_labels_are_word_for_word()
    ensures
        AdminLang::Zh.code()@ == "zh"@,
        AdminLang::En.code()@ == "en"@,
        AdminLang::Zh.html_lang()@ == "zh-CN"@,
        AdminLang::En.html_lang()@ == "en"@,
        AdminLang::Zh.title()@ == "Guideng 管理后台"@,
        AdminLang::En.title()@ == "Guideng Admin"@,
        AdminLang::Zh.switch_label()@ == "English"@,
        AdminLang::En.switch_label()@ == "中文"@,
        AdminLang::Zh.switch_code()@ == "en"@,
        AdminLang::En.switch_code()@ == "zh"@,
        AdminLang::Zh.password_label()@ == "管理密码"@,
        AdminLang::En.password_label()@ == "Admin password"@,
        AdminLang::Zh.login()@ == "登录"@,
        AdminLang::En.login()@ == "Log in"@,
        AdminLang::Zh.login_error()@ == "密码不正确"@,
        AdminLang::En.login_error()@ == "Incorrect password"@,
        AdminLang::Zh.logout()@ == "退出"@,
        AdminLang::En.logout()@ == "Log out"@,
        AdminLang::Zh.devices()@ == "客户端"@,
        AdminLang::En.devices()@ == "Devices"@,
        AdminLang::Zh.empty_devices()@ == "暂无客户端"@,
        AdminLang::En.empty_devices()@ == "No devices"@,
        AdminLang::Zh.manual_cleanup()@ == "手动清理未更新客户端"@,
        AdminLang::En.manual_cleanup()@ == "Manual cleanup of inactive devices"@,
        AdminLang::Zh.auto_cleanup()@ == "自动清理设置"@,
        AdminLang::En.auto_cleanup()@ == "Auto cleanup settings"@,
        AdminLang::Zh.days()@ == "天数"@,
        AdminLang::En.days()@ == "Days"@,
        AdminLang::Zh.delete_now()@ == "立即删除"@,
        AdminLang::En.delete_now()@ == "Delete now"@,
        AdminLang::Zh.save_settings()@ == "保存设置"@,
        AdminLang::En.save_settings()@ == "Save settings"@,
        AdminLang::Zh.empty_to_disable()@ == "留空关闭"@,
        AdminLang::En.empty_to_disable()@ == "Leave empty to disable"@,
        AdminLang::Zh.delete_locations()@ == "删除位置"@,
        AdminLang::En.delete_locations()@ == "Delete locations"@,
        AdminLang::Zh.delete_device()@ == "删除客户端"@,
        AdminLang::En.delete_device()@ == "Delete device"@,
        headings(AdminLang::Zh) == seq![
            "名称"@,
            "平台"@,
            "最后更新"@,
            "最后位置"@,
            "位置记录"@,
            "创建时间"@,
            "操作"@,
        ],
        headings(AdminLang::En) == seq![
            "Name"@,
            "Platform"@,
            "Last update"@,
            "Last location"@,
            "Location records"@,
            "Created"@,
            "Actions"@,
        ],
{
}

/// A code asks for English exactly where it is `en`; everything else, and
/// nothing, asks for Chinese.
pub proof fn law_all_other_codes_ask_for_chinese(code: Option<Seq<char>>)
    ensures
        lang_of(code) is En <==> (code matches Some(text) && text == seq!['e', 'n']),
        lang_of(code) is En || lang_of(code) is Zh,
{
    reveal_strlit("en");
    assert("en"@ =~= seq!['e', 'n']);
}

/// The sentence about when devices are swept tells the number of days, whatever
/// it is, and otherwise that they are not.
pub proof fn law_status_tells_the_days(days: i64)
    ensures
        status_text(AdminLang::Zh, Some(days)) == "当前：自动删除超过 "@ + signed_decimal(
            days as int,
        ) + " 天未更新位置的客户端"@,
        status_text(AdminLang::En, Some(days))
            == "Current: automatically delete devices inactive for over "@ + signed_decimal(
            days as int,
        ) + " days"@,
        status_text(AdminLang::Zh, None) == "当前：未开启自动清理"@,
        status_text(AdminLang::En, None) == "Current: auto cleanup is disabled"@,
{
}

/// Two numbers of days are told in two sentences.
pub proof fn law_statuses_stay_apart(lang: AdminLang, one: i64, other: i64)
    requires
        status_text(lang, Some(one)) == status_text(lang, Some(other)),
    ensures
        one == other,
{
    law_status_tells_the_days(one);
    law_status_tells_the_days(other);
    let (head, tail) = match lang {
        AdminLang::Zh => ("当前：自动删除超过 "@, " 天未更新位置的客户端"@),
        AdminLang::En => ("Current: automatically delete devices inactive for over "@, " days"@),
    };
    let a = signed_decimal(one as int);
    let b = signed_decimal(other as int);
    assert(head + a + tail == head + b + tail);
    assert((head + a + tail).len() == head.len() + a.len() + tail.len());
    assert((head + b + tail).len() == head.len() + b.len() + tail.len());
    assert(a == (head + a + tail).subrange(head.len() as int, (head.len() + a.len()) as int));
    assert(b == (head + b + tail).subrange(head.len() as int, (head.len() + b.len()) as int));
    law_integer_reads_back(one);
    law_integer_reads_back(other);
}

} // verus!
