use f3usb::regfield::{
    keep_and_set, replace_field, set_bits, usart_brr, GPIOA_AFRH_PA9_PA10_AF7,
    GPIOA_AFRH_PA9_PA10_KEEP, GPIOA_MODER_PA0_INPUT, GPIOA_MODER_PA0_MASK,
    GPIOA_MODER_PA9_PA10_ALTERNATE, GPIOA_MODER_PA9_PA10_KEEP, GPIOA_PUPDR_PA0_MASK,
    GPIOA_PUPDR_PA0_PULL_DOWN, HSI_HZ, NVIC_ISER0_EXTI0, RCC_AHBENR_IOPAEN, USART1_BAUD,
};

#[test]
fn set_bits_keeps_other_bits() {
    assert_eq!(set_bits(0x0000_0001, RCC_AHBENR_IOPAEN), 0x0002_0001);
    assert_eq!(set_bits(0x0002_0000, RCC_AHBENR_IOPAEN), 0x0002_0000);
    assert_eq!(set_bits(0, NVIC_ISER0_EXTI0), 0x40);
}

#[test]
fn replace_field_writes_only_the_field() {
    // PA0 as input: clears bits 1:0 and keeps the rest.
    assert_eq!(replace_field(0xA800_00FF, GPIOA_MODER_PA0_MASK, GPIOA_MODER_PA0_INPUT), 0xA800_00FC);
    // pull-down on PA0: bits 1:0 become 0b10.
    assert_eq!(replace_field(0x6400_0001, GPIOA_PUPDR_PA0_MASK, GPIOA_PUPDR_PA0_PULL_DOWN), 0x6400_0002);
    let once = replace_field(0x1234_5678, 0xF0, 0x30);
    assert_eq!(replace_field(once, 0xF0, 0x30), once);
    assert_eq!(once, 0x1234_5638);
}

#[test]
fn keep_and_set_moder_usart_pins() {
    // reset value of GPIOA_MODER on the board
    let r = keep_and_set(0xA800_0000, GPIOA_MODER_PA9_PA10_KEEP, GPIOA_MODER_PA9_PA10_ALTERNATE);
    assert_eq!(r, 0xA828_0000);
    assert_eq!((r >> 18) & 0b11, 0b10);
    assert_eq!((r >> 20) & 0b11, 0b10);
}

#[test]
fn keep_and_set_afrh_lands_in_pa8_and_pa9() {
    let r = keep_and_set(0xFFFF_FFFF, GPIOA_AFRH_PA9_PA10_KEEP, GPIOA_AFRH_PA9_PA10_AF7);
    assert_eq!(r, 0xFFFF_F07F);
    assert_eq!((r >> 4) & 0xF, 7); // PA9
    assert_eq!((r >> 8) & 0xF, 0); // PA10
}

#[test]
fn usart_brr_for_115200_at_8mhz() {
    assert_eq!(usart_brr(HSI_HZ, USART1_BAUD), 69);
    assert_eq!(usart_brr(48_000_000, 9600), 5000);
}
