//! The languages of the window.

use vstd::prelude::*;

use crate::text;

verus! {

/// The texts of the window in one language.
#[derive(Clone, Copy, Debug)]
pub struct Lang {
    // Auth
    pub title: &'static str,
    pub sudo_prompt: &'static str,
    pub sudo_placeholder: &'static str,
    pub unlock: &'static str,
    pub enter_password: &'static str,
    pub wrong_password: &'static str,
    // Toolbar / empty state
    pub add_service: &'static str,
    pub add_hint: &'static str,
    pub no_services: &'static str,
    // Table header
    pub hdr_status: &'static str,
    pub hdr_service: &'static str,
    // Buttons
    pub btn_stop: &'static str,
    pub btn_start: &'static str,
    pub btn_disable: &'static str,
    pub btn_enable: &'static str,
    pub btn_remove: &'static str,
    // Hover hints
    pub hint_stop: &'static str,
    pub hint_start: &'static str,
    pub hint_disable: &'static str,
    pub hint_enable: &'static str,
    pub hint_remove: &'static str,
    // Add dialog
    pub dlg_title: &'static str,
    pub dlg_svc_name: &'static str,
    pub dlg_command: &'static str,
    pub dlg_add: &'static str,
    pub dlg_cancel: &'static str,
}

/// The Russian texts.
pub open spec fn russian_texts() -> Lang {
    Lang {
        title: "Сервисный менеджер",
        sudo_prompt: "Введите пароль sudo для управления сервисами:",
        sudo_placeholder: "пароль sudo…",
        unlock: "Разблокировать",
        enter_password: "Введите пароль",
        wrong_password: "Неверный пароль",
        add_service: "+ добавить сервис",
        add_hint: "Создать симлинк /var/service/<name> → /etc/sv/<name>",
        no_services: "Сервисы не найдены",
        hdr_status: "STATUS",
        hdr_service: "SERVICE",
        btn_stop: "остановить",
        btn_start: "запустить",
        btn_disable: "отключить",
        btn_enable: "включить",
        btn_remove: "удалить",
        hint_stop: "sv down — остановить сервис",
        hint_start: "sv up — запустить сервис",
        hint_disable: "touch /etc/sv/<name>/down — отключить автозапуск",
        hint_enable: "rm /etc/sv/<name>/down — включить автозапуск",
        hint_remove: "rm /var/service/<name> — убрать из автозагрузки",
        dlg_title: "Добавить сервис",
        dlg_svc_name: "Имя сервиса:",
        dlg_command: "Команда:",
        dlg_add: "Добавить",
        dlg_cancel: "Отмена",
    }
}

/// The Russian texts.
pub fn ru() -> (r: Lang)
    ensures
        r == russian_texts(),
{
    Lang {
        title: "Сервисный менеджер",
        sudo_prompt: "Введите пароль sudo для управления сервисами:",
        sudo_placeholder: "пароль sudo…",
        unlock: "Разблокировать",
        enter_password: "Введите пароль",
        wrong_password: "Неверный пароль",
        add_service: "+ добавить сервис",
        add_hint: "Создать симлинк /var/service/<name> → /etc/sv/<name>",
        no_services: "Сервисы не найдены",
        hdr_status: "STATUS",
        hdr_service: "SERVICE",
        btn_stop: "остановить",
        btn_start: "запустить",
        btn_disable: "отключить",
        btn_enable: "включить",
        btn_remove: "удалить",
        hint_stop: "sv down — остановить сервис",
        hint_start: "sv up — запустить сервис",
        hint_disable: "touch /etc/sv/<name>/down — отключить автозапуск",
        hint_enable: "rm /etc/sv/<name>/down — включить автозапуск",
        hint_remove: "rm /var/service/<name> — убрать из автозагрузки",
        dlg_title: "Добавить сервис",
        dlg_svc_name: "Имя сервиса:",
        dlg_command: "Команда:",
        dlg_add: "Добавить",
        dlg_cancel: "Отмена",
    }
}

/// The English texts.
pub open spec fn english_texts() -> Lang {
    Lang {
        title: "Service Manager",
        sudo_prompt: "Enter your sudo password to manage services:",
        sudo_placeholder: "sudo password…",
        unlock: "Unlock",
        enter_password: "Enter password",
        wrong_password: "Wrong password",
        add_service: "+ add service",
        add_hint: "Create symlink /var/service/<name> → /etc/sv/<name>",
        no_services: "No services found",
        hdr_status: "STATUS",
        hdr_service: "SERVICE",
        btn_stop: "stop",
        btn_start: "start",
        btn_disable: "disable",
        btn_enable: "enable",
        btn_remove: "remove",
        hint_stop: "sv down — stop service",
        hint_start: "sv up — start service",
        hint_disable: "touch /etc/sv/<name>/down — disable autostart",
        hint_enable: "rm /etc/sv/<name>/down — enable autostart",
        hint_remove: "rm /var/service/<name> — remove from autostart",
        dlg_title: "Add Service",
        dlg_svc_name: "Service name:",
        dlg_command: "Command:",
        dlg_add: "Add",
        dlg_cancel: "Cancel",
    }
}

/// The English texts.
pub fn en() -> (r: Lang)
    ensures
        r == english_texts(),
{
    Lang {
        title: "Service Manager",
        sudo_prompt: "Enter your sudo password to manage services:",
        sudo_placeholder: "sudo password…",
        unlock: "Unlock",
        enter_password: "Enter password",
        wrong_password: "Wrong password",
        add_service: "+ add service",
        add_hint: "Create symlink /var/service/<name> → /etc/sv/<name>",
        no_services: "No services found",
        hdr_status: "STATUS",
        hdr_service: "SERVICE",
        btn_stop: "stop",
        btn_start: "start",
        btn_disable: "disable",
        btn_enable: "enable",
        btn_remove: "remove",
        hint_stop: "sv down — stop service",
        hint_start: "sv up — start service",
        hint_disable: "touch /etc/sv/<name>/down — disable autostart",
        hint_enable: "rm /etc/sv/<name>/down — enable autostart",
        hint_remove: "rm /var/service/<name> — remove from autostart",
        dlg_title: "Add Service",
        dlg_svc_name: "Service name:",
        dlg_command: "Command:",
        dlg_add: "Add",
        dlg_cancel: "Cancel",
    }
}

/// The environment variables that choose the language, in the order in which they are asked.
pub open spec fn variables() -> Seq<Seq<char>> {
    seq!["LANG"@, "LANGUAGE"@, "LC_ALL"@, "LC_MESSAGES"@]
}

/// What `str::to_lowercase` makes of a text.
pub uninterp spec fn unicode_lowercase(s: Seq<char>) -> Seq<char>;

/// An ASCII capital as a small letter; any other character as it is.
pub open spec fn ascii_small(c: char) -> char {
    if 'A' <= c <= 'Z' {
        (c as u8 + 32) as char
    } else {
        c
    }
}

/// A text in small letters: of an ASCII text each character, of any other text whatever the
/// Unicode tables of the standard library say.
pub open spec fn lowercase(s: Seq<char>) -> Seq<char> {
    if vstd::utf8::is_ascii_chars(s) {
        Seq::new(s.len(), |i: int| ascii_small(s[i]))
    } else {
        unicode_lowercase(s)
    }
}

/// Whether a locale in small letters is a Russian one.
pub open spec fn russian(lowered: Seq<char>) -> bool {
    "ru"@.is_prefix_of(lowered)
}

/// Whether one of these variables is set to a Russian locale.
pub open spec fn any_russian(values: Seq<Option<String>>) -> bool {
    exists|i: int|
        0 <= i < values.len() && #[trigger] values[i] is Some && russian(lowercase(values[i]->0@))
}

/// The environment variables that choose the language, in the order in which they are asked.
pub fn language_variables() -> (r: Vec<String>)
    ensures
        text::strings(r@) == variables(),
{
    let mut r: Vec<String> = Vec::new();
    r.push("LANG".to_owned());
    r.push("LANGUAGE".to_owned());
    r.push("LC_ALL".to_owned());
    r.push("LC_MESSAGES".to_owned());
    assert(text::strings(r@) =~= variables());
    r
}

/// Calls `str::to_lowercase`. Claimed of it: the result depends on the text alone.
#[verifier::external_body]
fn std_to_lowercase(s: &str) -> (r: String)
    ensures
        r@ == unicode_lowercase(s@),
{
    s.to_lowercase()
}

/// A text in small letters.
pub fn to_lowercase(s: &str) -> (r: String)
    ensures
        r@ == lowercase(s@),
{
    if !s.is_ascii() {
        return std_to_lowercase(s);
    }
    let cs = text::chars_of(s);
    let mut r = String::new();
    for i in 0..cs.len()
        invariant
            cs@ == s@,
            vstd::utf8::is_ascii_chars(s@),
            r@ == Seq::new(i as nat, |j: int| ascii_small(s@[j])),
    {
        let c = cs[i];
        let small = if 'A' <= c && c <= 'Z' { (c as u8 + 32) as char } else { c };
        r.push(small);
        assert(r@ =~= Seq::new((i + 1) as nat, |j: int| ascii_small(s@[j])));
    }
    assert(r@ =~= lowercase(s@));
    r
}

/// Whether a locale in small letters is a Russian one.
pub fn is_russian(lowered: &str) -> (r: bool)
    ensures
        r == russian(lowered@),
{
    let cs = text::chars_of(lowered);
    let ru = text::chars_of("ru");
    text::starts_with(cs.as_slice(), ru.as_slice())
}

/// The language that the values of the environment variables choose: Russian if one of them
/// is a Russian locale, else English.
pub fn detect_lang(values: &Vec<Option<String>>) -> (r: Lang)
    ensures
        r == (if any_russian(values@) {
            russian_texts()
        } else {
            english_texts()
        }),
{
    for i in 0..values.len()
        invariant
            forall|j: int|
                0 <= j < i ==> !(#[trigger] values@[j] is Some && russian(
                    lowercase(values@[j]->0@),
                )),
    {
        if let Some(value) = &values[i] {
            let lowered = to_lowercase(value.as_str());
            if is_russian(lowered.as_str()) {
                assert(values@[i as int] is Some);
                return ru();
            }
        }
    }
    en()
}

} // verus!
