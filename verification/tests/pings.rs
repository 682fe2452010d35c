use nonsense::pings::{
    display_name, distinct_ids, get_role_name, get_username, ids_of_groups, remove_pings, remove_role_pings,
    remove_special_pings, remove_user_pings, replace_text, rewrite, rewrite_role_pings,
    rewrite_user_pings, role_ping_ids, rolenames, str_to_role_id, str_to_user_id, user_ping_ids,
    usernames, Member, NameEntry,
};

fn members() -> Vec<Member> {
    vec![
        Member { id: 123, nick: Some(String::from("Nicky")), name: String::from("nick_global") },
        Member { id: 456, nick: None, name: String::from("plain") },
        Member { id: 123, nick: None, name: String::from("shadowed") },
    ]
}

fn roles() -> Vec<NameEntry> {
    vec![
        NameEntry { id: 5, name: String::from("mods") },
        NameEntry { id: 6, name: String::from("<@456>") },
    ]
}

#[test]
fn nickname_comes_before_the_global_name() {
    let all = members();
    assert_eq!(display_name(&all[0]), "Nicky");
    assert_eq!(display_name(&all[1]), "plain");
}

#[test]
fn username_of_known_and_unknown_users() {
    assert_eq!(get_username(&members(), 123), "Nicky");
    assert_eq!(get_username(&members(), 456), "plain");
    assert_eq!(get_username(&members(), 789), "INVALID-USERNAME");
    assert_eq!(get_username(&Vec::new(), 123), "INVALID-USERNAME");
}

#[test]
fn role_name_of_known_and_unknown_roles() {
    assert_eq!(get_role_name(&roles(), 5), "mods");
    assert_eq!(get_role_name(&roles(), 7), "INVALID-ROLE");
}

#[test]
fn identifiers_from_text() {
    assert_eq!(str_to_user_id("123"), 123);
    assert_eq!(str_to_user_id("99999999999999999999999"), 0);
    assert_eq!(str_to_role_id("5"), 5);
    assert_eq!(str_to_role_id(""), 0);
}

#[test]
fn user_mention_of_resolvable_user_becomes_the_name() {
    assert_eq!(
        remove_user_pings("hi <@123>!", &members()),
        Some(String::from("hi @Nicky!"))
    );
    assert_eq!(
        remove_user_pings("<@!456> said <@123>", &members()),
        Some(String::from("@plain said @Nicky"))
    );
}

#[test]
fn user_mention_of_unresolvable_user_becomes_the_stand_in() {
    assert_eq!(
        remove_user_pings("hi <@789>", &members()),
        Some(String::from("hi @INVALID-USERNAME"))
    );
    assert_eq!(
        remove_user_pings("<@99999999999999999999999>", &members()),
        Some(String::from("@INVALID-USERNAME"))
    );
}

#[test]
fn text_without_mentions_is_kept() {
    assert_eq!(remove_user_pings("", &members()), Some(String::new()));
    assert_eq!(
        remove_user_pings("a <@> b <@x> <@&5> \u{00e9}", &members()),
        Some(String::from("a <@> b <@x> <@&5> \u{00e9}"))
    );
    assert_eq!(remove_role_pings("a <@123>", &roles()), Some(String::from("a <@123>")));
}

#[test]
fn adjoining_mentions_are_all_replaced() {
    assert_eq!(
        remove_user_pings("<@123><@456><@1>", &members()),
        Some(String::from("@Nicky@plain@INVALID-USERNAME"))
    );
}

#[test]
fn role_mentions_become_role_names() {
    assert_eq!(
        remove_role_pings("ask <@&5> or <@&9>", &roles()),
        Some(String::from("ask @mods or @INVALID-ROLE"))
    );
}

#[test]
fn mentioned_identifiers_are_listed_in_order() {
    assert_eq!(user_ping_ids("<@123> <@!456> <@123> <@&5>"), Some(vec![123, 456, 123]));
    assert_eq!(user_ping_ids("none"), Some(Vec::new()));
    assert_eq!(role_ping_ids("<@123> <@&5> <@&77>"), Some(vec![5, 77]));
    assert_eq!(user_ping_ids("<@184467440737095516150>"), Some(vec![0]));
}

#[test]
fn keywords_are_broken_up() {
    assert_eq!(remove_special_pings("@everyone"), "@\u{200B}everyone");
    assert_eq!(remove_special_pings("@here"), "@\u{200B}here");
    assert_eq!(remove_special_pings("@someone"), "@\u{200B}someone");
    assert_eq!(
        remove_special_pings("x @everyone, @here and @someone @everyone"),
        "x @\u{200B}everyone, @\u{200B}here and @\u{200B}someone @\u{200B}everyone"
    );
    assert_eq!(remove_special_pings("@ everyone @her"), "@ everyone @her");
}

#[test]
fn breaking_up_twice_changes_nothing_more() {
    let once = remove_special_pings("@everyone @here");
    assert_eq!(remove_special_pings(&once), once);
}

#[test]
fn replacing_agrees_with_the_standard_library() {
    let cases = [
        ("", "a", "b"),
        ("aaa", "aa", "b"),
        ("aaaa", "aa", "b"),
        ("abcabc", "bc", ""),
        ("abc", "abcd", "x"),
        ("abc", "abc", "x"),
        ("\u{00e9}t\u{00e9}", "t", "\u{200B}"),
        ("@@here@here", "@here", "@\u{200B}here"),
    ];
    for (text, from, to) in cases {
        assert_eq!(replace_text(text, from, to), text.replace(from, to));
    }
}

#[test]
fn replacing_nothing_keeps_the_text() {
    assert_eq!(replace_text("abc", "", "x"), "abc");
}

#[test]
fn all_passes_in_order() {
    assert_eq!(
        remove_pings("<@&5> <@123> @everyone <@&6>", &roles(), &members()),
        Some(String::from("@mods @Nicky @\u{200B}everyone @@plain"))
    );
}

#[test]
fn rewriting_weaves_names_between_pieces() {
    let pieces = vec![String::from("a"), String::from("b"), String::from("")];
    let names = vec![String::from("x"), String::from("y")];
    assert_eq!(rewrite(&pieces, &names), Some(String::from("a@xb@y")));
    assert_eq!(rewrite(&vec![String::from("only")], &Vec::new()), Some(String::from("only")));
}

#[test]
fn rewriting_refuses_what_does_not_belong_together() {
    let pieces = vec![String::from("a"), String::from("b")];
    assert_eq!(rewrite(&pieces, &Vec::new()), None);
    assert_eq!(rewrite(&Vec::new(), &Vec::new()), None);
    assert_eq!(rewrite(&pieces, &vec![String::from("x"), String::from("y")]), None);
}

#[test]
fn rewriting_from_what_the_matcher_found() {
    let pieces = vec![String::from("hi "), String::from(" and "), String::from("")];
    let groups = vec![Some(String::from("456")), None];
    assert_eq!(
        rewrite_user_pings(&pieces, &groups, &members()),
        Some(String::from("hi @plain and @INVALID-USERNAME"))
    );
    assert_eq!(
        rewrite_role_pings(&pieces, &groups, &roles()),
        Some(String::from("hi @INVALID-ROLE and @INVALID-ROLE"))
    );
    assert_eq!(rewrite_user_pings(&pieces, &Vec::new(), &members()), None);
}

#[test]
fn groups_give_identifiers() {
    let groups = vec![Some(String::from("12")), None, Some(String::from("x"))];
    assert_eq!(ids_of_groups(&groups), vec![12, 0, 0]);
}

#[test]
fn names_of_several_identifiers() {
    assert_eq!(usernames(&members(), &vec![456, 1]), vec!["plain", "INVALID-USERNAME"]);
    assert_eq!(rolenames(&roles(), &vec![5, 1]), vec!["mods", "INVALID-ROLE"]);
}

#[test]
fn no_keyword_is_left_in_tricky_texts() {
    let texts = [
        "@@everyone",
        "@every@everyone",
        "@everyone@everyone",
        "@her@here@someon@someone",
        "@\u{200B}everyone @everyone",
        "@some@everyoneone",
    ];
    for text in texts {
        let out = remove_special_pings(text);
        assert!(!out.contains("@everyone"), "{}", out);
        assert!(!out.contains("@here"), "{}", out);
        assert!(!out.contains("@someone"), "{}", out);
        assert_eq!(out.replace('\u{200B}', ""), text.replace('\u{200B}', ""));
        assert_eq!(remove_special_pings(&out), out);
    }
}

#[test]
fn mention_with_digits_of_another_script_counts_as_unknown() {
    assert_eq!(
        remove_user_pings("<@\u{0661}\u{0662}>", &members()),
        Some(String::from("@INVALID-USERNAME"))
    );
}

#[test]
fn repeated_identifiers_are_looked_up_once() {
    assert_eq!(distinct_ids(&vec![3, 1, 3, 2, 1, 3]), vec![3, 1, 2]);
    assert_eq!(distinct_ids(&Vec::new()), Vec::<u64>::new());
    assert_eq!(distinct_ids(&vec![0, 0]), vec![0]);
}
