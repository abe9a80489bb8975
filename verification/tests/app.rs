use std::any::{Any, TypeId};

use plemeshko::app::env::Env;
use plemeshko::app::events::{FlagEvent, SetEvent};
use plemeshko::app::resources::ResourceMap;
use plemeshko::app::screens::load::LoadScreen;
use plemeshko::app::screens::main::debug_tab::{parse_amount, MainScreenDebugTab};
use plemeshko::app::screens::main::info_tab::{change_suffix, change_tint, ChangeTint, MainScreenInfoTab};
use plemeshko::app::screens::main::production_menu::{enough_resources, ProductionBuilder};
use plemeshko::app::screens::main::productions_tab::{
    can_grow, grow, grow_and_pay, purchase_limit, shrink, step, Growth, MainScreenProductionsTab,
    ProductionUnits,
};
use plemeshko::app::screens::main::research_tab::{
    starts_research, technology_tint, MainScreenResearchTab, TechnologyTint, TOOLTIP_LINGER_MS,
};
use plemeshko::app::screens::menu::MenuScreen;
use plemeshko::app::screens::new_game::NewGameScreen;
use plemeshko::app::screens::{
    AppExitEvent, AppLoadEvent, AppNewGameEvent, AppSaveEvent, AppScreen,
};
use plemeshko::app::util::Modifier;
use plemeshko::app::widgets::{
    PersistentWindow, ScreenTransitionEvent, Screens, Tabs, WindowCloseEvent,
};

struct AppId;

fn depot(pairs: &[(u64, i64)]) -> ResourceMap {
    let mut map = ResourceMap::new();
    for &(id, amount) in pairs {
        map.insert(id, amount);
    }
    map
}

fn sorted(map: &ResourceMap) -> Vec<(u64, i64)> {
    let mut entries = map.entries().clone();
    entries.sort();
    entries
}

#[test]
fn flag_event_reports_a_second_raise() {
    let mut event = FlagEvent::new();
    assert!(!event.get());
    assert!(!event.emit_idem());
    assert!(event.get());
    assert!(event.emit_idem());
    let mut other = FlagEvent::new();
    other.emit();
    assert!(other.get());
}

#[test]
fn set_event_keeps_the_last_value() {
    let mut event = SetEvent::new();
    assert_eq!(event.get(), None);
    assert_eq!(event.emit_idem(3), None);
    assert_eq!(event.emit_idem(4), Some(3));
    assert_eq!(event.get(), Some(4));
    if let Some(v) = event.get_mut() {
        *v = 9;
    }
    assert_eq!(event.get(), Some(9));
    let mut empty: SetEvent<u8> = SetEvent::new();
    assert!(empty.get_mut().is_none());
    let mut once = SetEvent::new();
    once.emit("a");
    assert_eq!(once.get(), Some("a"));
}

#[test]
fn window_closes_when_asked() {
    let mut window: PersistentWindow<u8, AppId> = PersistentWindow::new(5);
    assert!(!window.is_open);
    assert_eq!(window.content, 5);
    window.is_open = true;
    let quiet: WindowCloseEvent<AppId> = WindowCloseEvent::new();
    window.finish_frame(&quiet);
    assert!(window.is_open);
    let mut close: WindowCloseEvent<AppId> = WindowCloseEvent::new();
    close.emit();
    assert!(close.get());
    assert!(close.emit_idem());
    window.finish_frame(&close);
    assert!(!window.is_open);
    assert_eq!(window.content, 5);
}

#[test]
fn screens_follow_transitions() {
    let mut screens: Screens<Vec<u8>, AppScreen, AppId> = Screens::new(vec![1, 2, 3, 4]);
    assert_eq!(screens.current(), AppScreen::Menu);
    let none: ScreenTransitionEvent<AppScreen, AppId> = ScreenTransitionEvent::new();
    screens.finish_frame(&none);
    assert_eq!(screens.current(), AppScreen::Menu);
    let mut go: ScreenTransitionEvent<AppScreen, AppId> = ScreenTransitionEvent::new();
    go.emit(AppScreen::Load);
    assert_eq!(go.emit_idem(AppScreen::Main), Some(AppScreen::Load));
    screens.finish_frame(&go);
    assert_eq!(screens.current(), AppScreen::Main);
    screens.screens_mut().push(5);
    let at: Screens<u8, AppScreen, AppId> = Screens::new_at(AppScreen::NewGame, 0);
    assert_eq!(at.current(), AppScreen::NewGame);
    assert_eq!(AppScreen::default(), AppScreen::Menu);
}

#[test]
fn tabs_select_and_show() {
    let mut tabs: Tabs<&str, bool> = Tabs::new(true);
    assert_eq!(tabs.len(), 0);
    assert_eq!(tabs.selected(), 0);
    tabs.push("info");
    tabs.push("productions");
    tabs.push("debug");
    assert_eq!(*tabs.selected_tab_mut(), "info");
    tabs.select(2);
    assert_eq!(tabs.selected(), 2);
    *tabs.selected_tab_mut() = "research";
    assert_eq!(tabs.tabs().clone(), vec!["info", "productions", "research"]);
    assert!(*tabs.orientation());
}

#[test]
fn modifier_picks_its_value() {
    assert_eq!(Modifier::Plain.elim(1, 10, 100), 1);
    assert_eq!(Modifier::Shift.elim(1, 10, 100), 10);
    assert_eq!(Modifier::Command.elim(1, 10, 100), 100);
    assert_eq!(Modifier::from_keys(true, false), Modifier::Shift);
    assert_eq!(Modifier::from_keys(false, true), Modifier::Command);
    assert_eq!(Modifier::from_keys(false, false), Modifier::Plain);
}

#[test]
fn production_steps_and_limits() {
    assert_eq!(step(Modifier::Plain), 1);
    assert_eq!(step(Modifier::Shift), 10);
    assert_eq!(step(Modifier::Command), 100);
    assert_eq!(purchase_limit(0), 100);
    assert_eq!(purchase_limit(30), 70);
    assert_eq!(purchase_limit(100), 0);
    assert_eq!(purchase_limit(250), 0);
}

#[test]
fn growing_buys_the_missing_units() {
    let units = ProductionUnits { count: 5, active: 3 };
    assert!(can_grow(units, 0, 2));
    assert!(!can_grow(units, 0, 10));
    assert!(can_grow(units, 8, 10));
    let growth = grow(units, 10);
    assert_eq!(growth, Growth { units: ProductionUnits { count: 13, active: 13 }, purchases: 8 });
    assert_eq!(growth.units.count - units.count, growth.purchases);
    let within = grow(units, 1);
    assert_eq!(within, Growth { units: ProductionUnits { count: 5, active: 4 }, purchases: 0 });
}

#[test]
fn shrinking_stops_at_none() {
    let units = ProductionUnits { count: 20, active: 15 };
    assert_eq!(shrink(units, 10), ProductionUnits { count: 20, active: 5 });
    assert_eq!(shrink(units, 100), ProductionUnits { count: 20, active: 0 });
    assert_eq!(shrink(units, 15), ProductionUnits { count: 20, active: 0 });
}

#[test]
fn productions_tab_opens_its_builder() {
    let mut tab: MainScreenProductionsTab<u8> = MainScreenProductionsTab::new();
    assert!(!tab.production_menu.is_open);
    tab.open_builder();
    assert!(tab.production_menu.is_open);
}

#[test]
fn research_tints() {
    assert_eq!(technology_tint(true, false, false), TechnologyTint::Researched);
    assert_eq!(technology_tint(false, false, true), TechnologyTint::Locked);
    assert_eq!(technology_tint(false, true, true), TechnologyTint::Researching);
    assert_eq!(technology_tint(false, true, false), TechnologyTint::Available);
    assert!(starts_research(true, false, true));
    assert!(!starts_research(true, true, true));
    assert!(!starts_research(true, false, false));
    assert!(!starts_research(false, false, true));
}

#[test]
fn resource_map_basics() {
    let mut map = depot(&[(1, 5), (2, -3)]);
    assert_eq!(map.get(1), Some(5));
    assert_eq!(map.get(3), None);
    assert_eq!(map.amount(3), 0);
    map.insert(1, 7);
    assert_eq!(map.amount(1), 7);
    assert_eq!(sorted(&map), vec![(1, 7), (2, -3)]);
    assert!(!map.is_empty());
    assert!(ResourceMap::new().is_empty());
    assert_eq!(sorted(&map.clone()), sorted(&map));
}

#[test]
fn info_tab_tracks_changes() {
    let mut tab = MainScreenInfoTab::new();
    assert!(tab.changes().is_empty());
    assert_eq!(tab.nutrition_delta(), 0);
    tab.record_state(&depot(&[(0, 10), (1, 4)]), 50);
    assert_eq!(sorted(tab.changes()), vec![(0, 10), (1, 4)]);
    assert_eq!(tab.nutrition_delta(), 0);
    tab.record_state(&depot(&[(0, 12), (1, 4), (2, 1)]), 45);
    assert_eq!(sorted(tab.changes()), vec![(0, 2), (2, 1)]);
    assert_eq!(tab.nutrition_delta(), -5);
    tab.record_state(&depot(&[(0, 12)]), 45);
    assert_eq!(sorted(tab.changes()), vec![(1, -4), (2, -1)]);
    assert_eq!(tab.nutrition_delta(), 0);
    tab.record_state(&depot(&[(0, 12)]), 45);
    assert!(tab.changes().is_empty());
}

#[test]
fn info_tab_changes_add_up() {
    let before = depot(&[(0, 3), (1, 9), (2, -2)]);
    let after = depot(&[(0, 8), (2, -2), (3, 1)]);
    let mut tab = MainScreenInfoTab::new();
    tab.record_state(&before, 0);
    tab.record_state(&after, 0);
    for id in 0..5u64 {
        assert_eq!(before.amount(id) + tab.changes().amount(id), after.amount(id));
    }
}

#[test]
fn change_text_and_tint() {
    assert_eq!(change_suffix(5), " (+5)");
    assert_eq!(change_suffix(-12), " (-12)");
    assert_eq!(change_suffix(0), " (0)");
    assert_eq!(change_suffix(i64::MIN), " (-9223372036854775808)");
    assert_eq!(change_suffix(i64::MAX), " (+9223372036854775807)");
    assert_eq!(change_tint(Some(3)), ChangeTint::Gained);
    assert_eq!(change_tint(Some(-3)), ChangeTint::Lost);
    assert_eq!(change_tint(Some(0)), ChangeTint::Unchanged);
    assert_eq!(change_tint(None), ChangeTint::Unchanged);
}

#[test]
fn production_builder_bookkeeping() {
    let mut builder: ProductionBuilder<&str> = ProductionBuilder::new();
    assert!(!builder.ready());
    builder.set_name("farm".to_string());
    assert_eq!(builder.name(), "farm");
    assert!(!builder.ready());
    builder.add_method(4, "wheat");
    builder.add_method(7, "barley");
    builder.add_method(4, "rye");
    assert!(builder.ready());
    builder.remove_method(4);
    assert_eq!(builder.methods().clone(), vec![(7, "barley"), (4, "rye")]);
    builder.clear_methods();
    assert!(builder.methods().is_empty());
    assert!(!builder.ready());
}

#[test]
fn production_builder_transports() {
    let mut builder: ProductionBuilder<u8> = ProductionBuilder::new();
    assert!(!builder.mark_group(1));
    builder.add_group(1, 10);
    assert!(!builder.mark_group(2));
    builder.add_group(2, 20);
    builder.choose_transport(2, 21);
    builder.unmark_groups();
    assert!(builder.mark_group(1));
    let mut chosen = builder.chosen_transports();
    chosen.sort();
    assert_eq!(chosen, vec![(1, 10), (2, 21)]);
    builder.reset();
    assert!(builder.chosen_transports().is_empty());
    assert_eq!(builder.name(), "");
}

#[test]
fn enough_resources_compares_each_cost() {
    let stock = depot(&[(1, 5), (2, 0)]);
    assert!(enough_resources(&stock, &depot(&[(1, 5)])));
    assert!(!enough_resources(&stock, &depot(&[(1, 6)])));
    assert!(!enough_resources(&stock, &depot(&[(3, 1)])));
    assert!(enough_resources(&stock, &depot(&[(3, 0), (2, -1)])));
    assert!(enough_resources(&stock, &ResourceMap::new()));
}

#[test]
fn new_game_name_rules() {
    let mut screen = NewGameScreen::new();
    assert_eq!(screen.name(), "");
    assert!(screen.name_is_valid());
    assert!(!screen.can_start());
    screen.set_name("my_Game_2".to_string());
    assert!(screen.name_is_valid());
    assert!(screen.can_start());
    screen.set_name("my game".to_string());
    assert!(!screen.name_is_valid());
    assert!(!screen.can_start());
    screen.set_name("игра".to_string());
    assert!(!screen.can_start());
}

#[test]
fn new_game_start_and_back() {
    let mut screen = NewGameScreen::new();
    screen.set_name("colony".to_string());
    let mut new_game = AppNewGameEvent(SetEvent::new());
    let mut transition: ScreenTransitionEvent<AppScreen, AppId> = ScreenTransitionEvent::new();
    screen.start(&mut new_game, &mut transition);
    assert_eq!(new_game.0.get_mut().cloned(), Some("colony".to_string()));
    assert_eq!(transition.emit_idem(AppScreen::Menu), Some(AppScreen::Main));
    let mut back: ScreenTransitionEvent<AppScreen, AppId> = ScreenTransitionEvent::new();
    screen.back(&mut back);
    assert_eq!(back.emit_idem(AppScreen::Menu), Some(AppScreen::Menu));
}

#[test]
fn load_screen_loads_a_single_save_at_once() {
    let mut screen: LoadScreen<u8> = LoadScreen::new();
    assert!(screen.needs_saves());
    let mut load = AppLoadEvent(SetEvent::new());
    let mut transition: ScreenTransitionEvent<AppScreen, AppId> = ScreenTransitionEvent::new();
    screen.receive_saves(vec![("only".to_string(), 1)], &mut load, &mut transition);
    assert_eq!(load.0.get_mut().cloned(), Some("only".to_string()));
    assert_eq!(transition.emit_idem(AppScreen::Menu), Some(AppScreen::Main));
    assert!(screen.needs_saves());
}

#[test]
fn load_screen_offers_several_saves() {
    let mut screen: LoadScreen<u8> = LoadScreen::new();
    let mut load = AppLoadEvent(SetEvent::new());
    let mut transition: ScreenTransitionEvent<AppScreen, AppId> = ScreenTransitionEvent::new();
    screen.receive_saves(vec![("a".to_string(), 1), ("b".to_string(), 2)], &mut load, &mut transition);
    assert!(load.0.get_mut().is_none());
    assert!(!screen.needs_saves());
    assert_eq!(screen.saves().unwrap().len(), 2);
    screen.pick(1, &mut load, &mut transition);
    assert_eq!(load.0.get_mut().cloned(), Some("b".to_string()));
    assert_eq!(transition.emit_idem(AppScreen::Menu), Some(AppScreen::Main));
    assert!(screen.needs_saves());
    let mut none: LoadScreen<u8> = LoadScreen::new();
    let mut empty_load = AppLoadEvent(SetEvent::new());
    let mut back: ScreenTransitionEvent<AppScreen, AppId> = ScreenTransitionEvent::new();
    none.receive_saves(vec![], &mut empty_load, &mut back);
    assert_eq!(none.saves().unwrap().len(), 0);
    none.back(&mut back);
    assert_eq!(back.emit_idem(AppScreen::Main), Some(AppScreen::Menu));
    assert!(none.needs_saves());
}

#[test]
fn menu_buttons() {
    let mut menu: MenuScreen<&str> = MenuScreen::new();
    assert!(menu.languages().is_none());
    let mut transition: ScreenTransitionEvent<AppScreen, AppId> = ScreenTransitionEvent::new();
    menu.new_game(&mut transition);
    assert_eq!(transition.emit_idem(AppScreen::Menu), Some(AppScreen::NewGame));
    let mut resume: ScreenTransitionEvent<AppScreen, AppId> = ScreenTransitionEvent::new();
    menu.resume(&mut resume);
    assert_eq!(resume.emit_idem(AppScreen::Menu), Some(AppScreen::Load));
    let mut exit = AppExitEvent(FlagEvent::new());
    menu.exit(&mut exit);
    assert!(exit.0.get());
    menu.open_languages(vec!["en", "ru"]);
    assert_eq!(menu.languages().unwrap().clone(), vec!["en", "ru"]);
    let mut switch = SetEvent::new();
    menu.pick_language(1, &mut switch);
    assert_eq!(switch.get(), Some("ru"));
    assert!(menu.languages().is_none());
}

#[test]
fn app_events_raise_once() {
    let mut save = AppSaveEvent(FlagEvent::new());
    save.emit();
    assert!(save.0.get());
    let mut load = AppLoadEvent(SetEvent::new());
    load.emit("slot".to_string());
    assert_eq!(load.0.get_mut().cloned(), Some("slot".to_string()));
    let mut exit = AppExitEvent(FlagEvent::new());
    exit.emit();
    assert!(exit.0.get());
    let mut new_game = AppNewGameEvent(SetEvent::new());
    new_game.emit("world".to_string());
    assert_eq!(new_game.0.get_mut().cloned(), Some("world".to_string()));
}

#[test]
fn debug_tab_offers_ten_humans() {
    let mut tab = MainScreenDebugTab::new();
    assert_eq!(tab.name_mut().as_str(), "human");
    assert_eq!(tab.value_mut().as_str(), "10");
    tab.value_mut().push('0');
    assert_eq!(tab.value_mut().as_str(), "100");
}

#[test]
fn research_tooltip_lingers_after_the_pointer_leaves() {
    let mut tab: MainScreenResearchTab<(i32, i32)> = MainScreenResearchTab::new();
    assert!(tab.tooltip().is_none());
    tab.begin_frame(0);
    tab.hover(7, (10, 20));
    tab.end_frame(true, false, false, 0);
    assert_eq!(tab.tooltip(), Some(&(7, (10, 20))));
    tab.begin_frame(1000);
    tab.end_frame(false, false, false, 1000);
    tab.begin_frame(1000 + TOOLTIP_LINGER_MS);
    assert_eq!(tab.tooltip(), Some(&(7, (10, 20))));
    tab.end_frame(false, false, false, 1000 + TOOLTIP_LINGER_MS);
    tab.begin_frame(1001 + TOOLTIP_LINGER_MS);
    assert!(tab.tooltip().is_none());
}

#[test]
fn research_tooltip_stays_while_hovered_or_dragged() {
    let mut tab: MainScreenResearchTab<u8> = MainScreenResearchTab::new();
    tab.hover(1, 0);
    tab.end_frame(false, false, false, 0);
    tab.begin_frame(100);
    tab.end_frame(false, true, false, 100);
    tab.begin_frame(5000);
    assert_eq!(tab.tooltip(), Some(&(1, 0)));
    tab.end_frame(false, false, true, 5000);
    tab.begin_frame(9000);
    assert_eq!(tab.tooltip(), Some(&(1, 0)));
}

#[test]
fn env_holds_a_value_for_the_call() {
    let mut env: Env<&dyn Any> = Env::new();
    let count = 5u32;
    let name = "farm";
    assert!(env.get(&TypeId::of::<u32>()).is_none());
    let seen = env.with(TypeId::of::<u32>(), &count, |env| {
        let outer = env.get(&TypeId::of::<u32>()).and_then(|v| v.downcast_ref::<u32>()).copied();
        let inner = env.with(TypeId::of::<&str>(), &name, |env| {
            env.get(&TypeId::of::<&str>()).and_then(|v| v.downcast_ref::<&str>()).copied()
        });
        assert!(env.get(&TypeId::of::<&str>()).is_none());
        (outer, inner)
    });
    assert_eq!(seen, (Some(5), Some("farm")));
    assert!(env.get(&TypeId::of::<u32>()).is_none());
}

#[test]
fn env_with_replaces_a_value_of_the_same_type() {
    let mut env: Env<u8> = Env::new();
    let inner = env.with(TypeId::of::<u8>(), 1, |env| {
        env.with(TypeId::of::<u8>(), 2, |env| env.get(&TypeId::of::<u8>()).copied())
    });
    assert_eq!(inner, Some(2));
    assert!(env.get(&TypeId::of::<u8>()).is_none());
}

#[test]
fn charge_pays_the_cost_times() {
    let mut stock = depot(&[(1, 100), (2, 5)]);
    stock.charge(&depot(&[(1, 7), (3, 2)]), 3);
    assert_eq!(sorted(&stock), vec![(1, 79), (2, 5), (3, -6)]);
    stock.charge(&ResourceMap::new(), 9);
    assert_eq!(sorted(&stock), vec![(1, 79), (2, 5), (3, -6)]);
}

#[test]
fn growing_pays_for_bought_units() {
    let cost = depot(&[(1, 4)]);
    let mut stock = depot(&[(1, 100)]);
    let units = ProductionUnits { count: 5, active: 3 };
    let grown = grow_and_pay(units, 10, &mut stock, &cost);
    assert_eq!(grown, ProductionUnits { count: 13, active: 13 });
    assert_eq!(sorted(&stock), vec![(1, 68)]);
    let within = grow_and_pay(grown, 0, &mut stock, &cost);
    assert_eq!(within, grown);
    let mut spare = depot(&[(1, 100)]);
    let inside = grow_and_pay(units, 2, &mut spare, &cost);
    assert_eq!(inside, ProductionUnits { count: 5, active: 5 });
    assert_eq!(sorted(&spare), vec![(1, 100)]);
}

#[test]
fn production_builder_marks_groups_in_turn() {
    let mut builder: ProductionBuilder<u8> = ProductionBuilder::new();
    builder.add_group(1, 10);
    builder.choose_transport(1, 11);
    builder.unmark_groups();
    builder.mark_groups(&vec![(2, 20), (1, 99), (2, 21)]);
    let mut chosen = builder.chosen_transports();
    chosen.sort();
    assert_eq!(chosen, vec![(1, 11), (2, 20)]);
    assert!(builder.mark_group(2));
}

#[test]
fn production_builder_finish_pays_closes_and_starts_over() {
    let mut builder: ProductionBuilder<&str> = ProductionBuilder::new();
    builder.set_name("mill".to_string());
    builder.add_method(3, "grind");
    builder.add_group(5, 50);
    let mut stock = depot(&[(1, 10)]);
    let mut close: WindowCloseEvent<AppId> = WindowCloseEvent::new();
    let (name, methods, transports) =
        builder.finish_production(&mut stock, &depot(&[(1, 4)]), &mut close);
    assert_eq!(name, "mill");
    assert_eq!(methods, vec![(3, "grind")]);
    assert_eq!(transports, vec![(5, 50)]);
    assert_eq!(sorted(&stock), vec![(1, 6)]);
    assert!(close.get());
    assert_eq!(builder.name(), "");
    assert!(builder.methods().is_empty());
    assert!(builder.chosen_transports().is_empty());
}

#[test]
fn parse_amount_reads_signed_decimals() {
    assert_eq!(parse_amount("10"), Some(10));
    assert_eq!(parse_amount("+7"), Some(7));
    assert_eq!(parse_amount("-5"), Some(-5));
    assert_eq!(parse_amount("007"), Some(7));
    assert_eq!(parse_amount("9223372036854775807"), Some(i64::MAX));
    assert_eq!(parse_amount("-9223372036854775808"), Some(i64::MIN));
}

#[test]
fn parse_amount_refuses_other_text() {
    assert_eq!(parse_amount(""), None);
    assert_eq!(parse_amount("-"), None);
    assert_eq!(parse_amount("+"), None);
    assert_eq!(parse_amount("1a"), None);
    assert_eq!(parse_amount(" 1"), None);
    assert_eq!(parse_amount("--1"), None);
    assert_eq!(parse_amount("9223372036854775808"), None);
    assert_eq!(parse_amount("-9223372036854775809"), None);
    assert_eq!(parse_amount("99999999999999999999"), None);
}

#[test]
fn put_adds_to_the_stock() {
    let mut stock = depot(&[(1, 5)]);
    stock.put(1, 3);
    stock.put(2, -4);
    assert_eq!(sorted(&stock), vec![(1, 8), (2, -4)]);
}

#[test]
fn spawn_adds_the_typed_amount() {
    let tab = MainScreenDebugTab::new();
    let mut stock = depot(&[(1, 5), (2, 1)]);
    tab.spawn(1, &mut stock);
    assert_eq!(sorted(&stock), vec![(1, 15), (2, 1)]);
    let mut tab = MainScreenDebugTab::new();
    *tab.value_mut() = "-2".to_string();
    tab.spawn(3, &mut stock);
    assert_eq!(sorted(&stock), vec![(1, 15), (2, 1), (3, -2)]);
}

#[test]
fn env_nested_calls_hold_each_value() {
    let mut env: Env<u32> = Env::new();
    let found = env.with(TypeId::of::<u8>(), 8, |env| {
        env.with(TypeId::of::<u16>(), 16, |env| {
            env.with(TypeId::of::<u32>(), 32, |env| {
                (
                    env.get(&TypeId::of::<u8>()).copied(),
                    env.get(&TypeId::of::<u16>()).copied(),
                    env.get(&TypeId::of::<u32>()).copied(),
                    env.get(&TypeId::of::<u64>()).copied(),
                )
            })
        })
    });
    assert_eq!(found, (Some(8), Some(16), Some(32), None));
    assert!(env.get(&TypeId::of::<u8>()).is_none());
}
