use tranquil::bot::ApplicationCommandUpdate;
use tranquil::context::{CommandCtx, ComponentCtx, ModalCtx};
use tranquil::interaction::{
    AutocompleteResolveError, CommandInteractionError, FrameworkEvent, InteractionError, InteractionKind, Tranquil,
};
use tranquil::utils::{
    debug_guilds_from_env, discord_token_from_env, parse_guild_ids, parse_u64, DebugGuildsError, IntErrorKind,
    VarError,
};

fn chars_of(s: &str) -> Vec<char> {
    s.chars().collect()
}

#[test]
fn decimal_u64_values() {
    assert_eq!(parse_u64(&chars_of("42")), Ok(42));
    assert_eq!(parse_u64(&chars_of("+42")), Ok(42));
    assert_eq!(parse_u64(&chars_of("007")), Ok(7));
    assert_eq!(parse_u64(&chars_of("18446744073709551615")), Ok(u64::MAX));
    assert_eq!(parse_u64(&chars_of("")), Err(IntErrorKind::Empty));
    assert_eq!(parse_u64(&chars_of("+")), Err(IntErrorKind::InvalidDigit));
    assert_eq!(parse_u64(&chars_of("-1")), Err(IntErrorKind::InvalidDigit));
    assert_eq!(parse_u64(&chars_of("1x")), Err(IntErrorKind::InvalidDigit));
    assert_eq!(parse_u64(&chars_of("18446744073709551616")), Err(IntErrorKind::PosOverflow));
    assert_eq!(parse_u64(&chars_of("99999999999999999999x")), Err(IntErrorKind::PosOverflow));
}

#[test]
fn decimal_u64_values_agree_with_std() {
    for text in ["0", "+0", "12", "+", "", "-3", "1 2", "18446744073709551615", "18446744073709551616", "9x"] {
        assert_eq!(parse_u64(&chars_of(text)).ok(), text.parse::<u64>().ok(), "{text}");
    }
}

#[test]
fn guild_id_lists() {
    assert_eq!(parse_guild_ids(" 1, 2 ,3,"), Ok(vec![1, 2, 3]));
    assert_eq!(parse_guild_ids(""), Ok(vec![]));
    assert_eq!(parse_guild_ids("  "), Ok(vec![]));
    assert_eq!(parse_guild_ids("7"), Ok(vec![7]));
    assert_eq!(parse_guild_ids("1,,2"), Err(IntErrorKind::Empty));
    assert_eq!(parse_guild_ids("1,x,"), Err(IntErrorKind::InvalidDigit));
    assert_eq!(parse_guild_ids(","), Err(IntErrorKind::Empty));
}

#[test]
fn debug_guilds_from_the_environment() {
    assert_eq!(
        debug_guilds_from_env(Ok("5, 6".to_string())),
        Ok(Some(ApplicationCommandUpdate::Only(vec![5, 6])))
    );
    assert_eq!(debug_guilds_from_env(Err(VarError::NotPresent)), Ok(Some(ApplicationCommandUpdate::Global)));
    assert_eq!(debug_guilds_from_env(Err(VarError::NotUnicode)), Err(DebugGuildsError::NotUnicode));
    assert_eq!(
        debug_guilds_from_env(Ok("5;6".to_string())),
        Err(DebugGuildsError::InvalidGuildId(IntErrorKind::InvalidDigit))
    );
    assert_eq!(discord_token_from_env(Ok("token".to_string())), Ok("token".to_string()));
    assert_eq!(discord_token_from_env(Err(VarError::NotPresent)), Err(VarError::NotPresent));
}

#[test]
fn interactions_are_dispatched_by_kind() {
    let framework = Tranquil::new();
    assert_eq!(
        framework.dispatch(FrameworkEvent::InteractionCreate(InteractionKind::Command)),
        Some(Err(InteractionError::Command(CommandInteractionError::FooBar)))
    );
    assert_eq!(
        framework.dispatch(FrameworkEvent::InteractionCreate(InteractionKind::Autocomplete)),
        Some(Err(InteractionError::Command(CommandInteractionError::FooBar)))
    );
    assert_eq!(framework.dispatch(FrameworkEvent::InteractionCreate(InteractionKind::Component)), Some(Ok(())));
    assert_eq!(framework.dispatch(FrameworkEvent::InteractionCreate(InteractionKind::Modal)), Some(Ok(())));
    assert_eq!(framework.dispatch(FrameworkEvent::InteractionCreate(InteractionKind::Ping)), Some(Ok(())));
    assert_eq!(framework.dispatch(FrameworkEvent::Ready), None);
    assert_eq!(framework.dispatch(FrameworkEvent::Other), None);
    assert_eq!(CommandInteractionError::FooBar.message(), "foo bar");
    assert_eq!(AutocompleteResolveError::NoAutocomplete.message(), "the command does not support autocompletion");
}

#[test]
fn contexts_move_on_and_offer_followups() {
    let ctx = CommandCtx { bot: "bot", interaction: 7 };
    let answered = ctx.responded();
    assert_eq!(*answered.followups().interaction, 7);
    let deleted = answered.deleted();
    assert_eq!(*deleted.followups().bot, "bot");
    let component = ComponentCtx { bot: 1, interaction: 2 }.responded();
    assert_eq!(*component.followups().interaction, 2);
    let modal = ModalCtx { bot: 'b', interaction: 'i' }.responded().deleted();
    assert_eq!(*modal.followups().bot, 'b');
}
