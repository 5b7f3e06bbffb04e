//! The words of the window in its languages, and that they say what is done.

use vstd::prelude::*;

use crate::lang;
use crate::lang::Lang;
use crate::pieces;
use crate::runit;

verus! {

/// The texts of the window, Russian or English.
pub open spec fn spoken(russian: bool) -> Lang {
    if russian {
        lang::russian_texts()
    } else {
        lang::english_texts()
    }
}

/// One of two texts: the first in Russian, the second in English.
pub open spec fn said(russian: bool, ru: Seq<char>, en: Seq<char>) -> Seq<char> {
    if russian {
        ru
    } else {
        en
    }
}

/// Whether a locale starts with `r` and `u`.
pub open spec fn starts_with_ru(s: Seq<char>) -> bool {
    s.len() >= 2 && s[0] == 'r' && s[1] == 'u'
}

/// A locale in small letters is Russian if and only if it starts with `ru`.
pub proof fn law_russian_locale_starts_with_ru(lowered: Seq<char>)
    ensures
        lang::russian(lowered) <==> starts_with_ru(lowered),
{
    reveal_strlit("ru");
    if lang::russian(lowered) {
        assert(lowered.take(2)[0] == "ru"@[0]);
        assert(lowered.take(2)[1] == "ru"@[1]);
    }
    if starts_with_ru(lowered) {
        assert(lowered.take(2) =~= "ru"@);
    }
}

/// The window is Russian if and only if one of the variables, whichever, is set to a locale that
/// starts with `ru` once it is in small letters.
pub proof fn law_any_variable_makes_it_russian(values: Seq<Option<String>>)
    ensures
        lang::any_russian(values) <==> exists|i: int|
            0 <= i < values.len() && #[trigger] values[i] is Some && starts_with_ru(
                lang::lowercase(values[i]->0@),
            ),
{
    assert forall|i: int| 0 <= i < values.len() && #[trigger] values[i] is Some implies
        lang::russian(lang::lowercase(values[i]->0@)) == starts_with_ru(
        lang::lowercase(values[i]->0@),
    ) by {
        law_russian_locale_starts_with_ru(lang::lowercase(values[i]->0@));
    }
}

/// An ASCII locale starts with `ru` in small letters if and only if it starts with these letters,
/// small or capital.
pub proof fn law_capitals_do_not_matter(s: Seq<char>)
    requires
        vstd::utf8::is_ascii_chars(s),
    ensures
        starts_with_ru(lang::lowercase(s)) <==> s.len() >= 2 && (s[0] == 'r' || s[0] == 'R') && (
        s[1] == 'u' || s[1] == 'U'),
{
    pieces::law_small_letters(s, 0);
    pieces::law_small_letters(s, 1);
}

/// The variables that choose the language are four, asked in this order.
pub proof fn law_variables_are_four()
    ensures
        lang::variables().len() == 4,
        lang::variables()[0] == "LANG"@,
        lang::variables()[1] == "LANGUAGE"@,
        lang::variables()[2] == "LC_ALL"@,
        lang::variables()[3] == "LC_MESSAGES"@,
{
}

/// The hints name the commands that the buttons run, with `<name>` for the service.
pub proof fn law_hints_name_the_commands(russian: bool)
    ensures
        ({
            let l = spoken(russian);
            &&& "sv down "@.is_prefix_of(l.hint_stop@)
            &&& "sv up "@.is_prefix_of(l.hint_start@)
            &&& ("touch "@ + runit::down_path("<name>"@)).is_prefix_of(l.hint_disable@)
            &&& ("rm "@ + runit::down_path("<name>"@)).is_prefix_of(l.hint_enable@)
            &&& ("rm "@ + runit::link_path("<name>"@)).is_prefix_of(l.hint_remove@)
        }),
{
    reveal_strlit("/etc/sv/");
    reveal_strlit("/down");
    reveal_strlit("/var/service/");
    reveal_strlit("<name>");
    reveal_strlit("touch ");
    reveal_strlit("rm ");
    reveal_strlit("sv down ");
    reveal_strlit("sv up ");
    let l = spoken(russian);
    reveal_strlit("sv down — остановить сервис");
    reveal_strlit("sv down — stop service");
    reveal_strlit("sv up — запустить сервис");
    reveal_strlit("sv up — start service");
    reveal_strlit("touch /etc/sv/<name>/down — отключить автозапуск");
    reveal_strlit("touch /etc/sv/<name>/down — disable autostart");
    reveal_strlit("rm /etc/sv/<name>/down — включить автозапуск");
    reveal_strlit("rm /etc/sv/<name>/down — enable autostart");
    reveal_strlit("rm /var/service/<name> — убрать из автозагрузки");
    reveal_strlit("rm /var/service/<name> — remove from autostart");
    assert(l.hint_stop@.take(8) =~= "sv down "@);
    assert(l.hint_start@.take(6) =~= "sv up "@);
    assert(l.hint_disable@.take(25) =~= "touch "@ + runit::down_path("<name>"@));
    assert(l.hint_enable@.take(22) =~= "rm "@ + runit::down_path("<name>"@));
    assert(l.hint_remove@.take(22) =~= "rm "@ + runit::link_path("<name>"@));
}

/// The words of the question for the password.
pub proof fn law_words_of_the_password_question(russian: bool)
    ensures
        ({
            let l = spoken(russian);
            &&& l.title@ == said(russian, "Сервисный менеджер"@, "Service Manager"@)
            &&& l.sudo_prompt@ == said(
                russian,
                "Введите пароль sudo для управления сервисами:"@,
                "Enter your sudo password to manage services:"@,
            )
            &&& l.sudo_placeholder@ == said(russian, "пароль sudo…"@, "sudo password…"@)
            &&& l.unlock@ == said(russian, "Разблокировать"@, "Unlock"@)
            &&& l.enter_password@ == said(russian, "Введите пароль"@, "Enter password"@)
            &&& l.wrong_password@ == said(russian, "Неверный пароль"@, "Wrong password"@)
        }),
{
}

/// The words around the list.
pub proof fn law_words_of_the_list(russian: bool)
    ensures
        ({
            let l = spoken(russian);
            &&& l.add_service@ == said(russian, "+ добавить сервис"@, "+ add service"@)
            &&& l.add_hint@ == said(
                russian,
                "Создать симлинк /var/service/<name> → /etc/sv/<name>"@,
                "Create symlink /var/service/<name> → /etc/sv/<name>"@,
            )
            &&& l.no_services@ == said(russian, "Сервисы не найдены"@, "No services found"@)
            &&& l.hdr_status@ == "STATUS"@
            &&& l.hdr_service@ == "SERVICE"@
        }),
{
}

/// The words on the buttons of a row.
pub proof fn law_words_of_the_buttons(russian: bool)
    ensures
        ({
            let l = spoken(russian);
            &&& l.btn_stop@ == said(russian, "остановить"@, "stop"@)
            &&& l.btn_start@ == said(russian, "запустить"@, "start"@)
            &&& l.btn_disable@ == said(russian, "отключить"@, "disable"@)
            &&& l.btn_enable@ == said(russian, "включить"@, "enable"@)
            &&& l.btn_remove@ == said(russian, "удалить"@, "remove"@)
        }),
{
}

/// The words of the hints at the buttons of a row.
pub proof fn law_words_of_the_hints(russian: bool)
    ensures
        ({
            let l = spoken(russian);
            &&& l.hint_stop@ == said(
                russian,
                "sv down — остановить сервис"@,
                "sv down — stop service"@,
            )
            &&& l.hint_start@ == said(
                russian,
                "sv up — запустить сервис"@,
                "sv up — start service"@,
            )
            &&& l.hint_disable@ == said(
                russian,
                "touch /etc/sv/<name>/down — отключить автозапуск"@,
                "touch /etc/sv/<name>/down — disable autostart"@,
            )
            &&& l.hint_enable@ == said(
                russian,
                "rm /etc/sv/<name>/down — включить автозапуск"@,
                "rm /etc/sv/<name>/down — enable autostart"@,
            )
            &&& l.hint_remove@ == said(
                russian,
                "rm /var/service/<name> — убрать из автозагрузки"@,
                "rm /var/service/<name> — remove from autostart"@,
            )
        }),
{
}

/// The words of the dialog.
pub proof fn law_words_of_the_dialog(russian: bool)
    ensures
        ({
            let l = spoken(russian);
            &&& l.dlg_title@ == said(russian, "Добавить сервис"@, "Add Service"@)
            &&& l.dlg_svc_name@ == said(russian, "Имя сервиса:"@, "Service name:"@)
            &&& l.dlg_command@ == said(russian, "Команда:"@, "Command:"@)
            &&& l.dlg_add@ == said(russian, "Добавить"@, "Add"@)
            &&& l.dlg_cancel@ == said(russian, "Отмена"@, "Cancel"@)
        }),
{
}

} // verus!
